use pet_core::error::Error;
use pet_core::ipc::{frame_len, IpcEnvelope, IpcMessage, ProcessId, MAX_MESSAGE_SIZE};
use pet_core::script::{Action, BehaviorScript, Keyframe};
use pet_core::wire::pid_of_name_exec;

fn le_len(frame: &[u8]) -> usize {
    u32::from_le_bytes([frame[0], frame[1], frame[2], frame[3]]) as usize
}

#[test]
fn ipc_encode_decode_roundtrip() {
    let envelope = IpcEnvelope::new(ProcessId::Theater, ProcessId::App, IpcMessage::PetClicked);
    let encoded = envelope.encode().unwrap();
    let decoded = IpcEnvelope::decode(&encoded[4..]).unwrap();
    assert_eq!(decoded.source, ProcessId::Theater);
    assert_eq!(decoded.target, ProcessId::App);
    assert!(matches!(decoded.payload, IpcMessage::PetClicked));
}

#[test]
fn ipc_integration_encode_decode_roundtrip() {
    let envelope = IpcEnvelope::new(ProcessId::Theater, ProcessId::App, IpcMessage::PetClicked);
    let encoded = envelope.encode().unwrap();

    let len = le_len(&encoded);
    assert_eq!(len, encoded.len() - 4);

    let decoded = IpcEnvelope::decode(&encoded[4..]).unwrap();
    assert_eq!(decoded.source, ProcessId::Theater);
    assert_eq!(decoded.target, ProcessId::App);
    assert!(matches!(decoded.payload, IpcMessage::PetClicked));
}

#[test]
fn process_id_serialization() {
    let ids = [
        ProcessId::App,
        ProcessId::Tray,
        ProcessId::Theater,
        ProcessId::Brain,
        ProcessId::Manager,
        ProcessId::Settings,
    ];
    for id in ids {
        let name = id.to_string();
        let back = pid_of_name_exec(&name).unwrap();
        assert_eq!(id, back);
    }
}

#[test]
fn process_id_all_variants_roundtrip() {
    let ids = [
        ProcessId::App,
        ProcessId::Tray,
        ProcessId::Theater,
        ProcessId::Brain,
        ProcessId::Manager,
        ProcessId::Settings,
    ];
    for id in ids {
        for other in ids {
            let e = IpcEnvelope::with_timestamp(id, other, IpcMessage::Ping, 7);
            let frame = e.encode().unwrap();
            let back = IpcEnvelope::decode(&frame[4..]).unwrap();
            assert_eq!(back.source, id);
            assert_eq!(back.target, other);
        }
    }
}

#[test]
fn execute_script_message_roundtrip() {
    let script = BehaviorScript {
        id: "test".to_string(),
        duration: Some(2.0f32.to_bits()),
        keyframes: vec![Keyframe {
            time: 0.0f32.to_bits(),
            action: Action::PlayAnimation { name: "idle".to_string() },
        }],
        next: None,
        interruptible: true,
    };

    let envelope =
        IpcEnvelope::new(ProcessId::Brain, ProcessId::Theater, IpcMessage::ExecuteScript { script });

    let encoded = envelope.encode().unwrap();
    let decoded = IpcEnvelope::decode(&encoded[4..]).unwrap();

    if let IpcMessage::ExecuteScript { script } = decoded.payload {
        assert_eq!(script.id, "test");
        assert_eq!(script.keyframes.len(), 1);
    } else {
        panic!("Expected ExecuteScript message");
    }
}

#[test]
fn execute_script_message_in_envelope() {
    let script = BehaviorScript {
        id: "wave".to_string(),
        duration: Some(3.0f32.to_bits()),
        keyframes: vec![
            Keyframe {
                time: 0.0f32.to_bits(),
                action: Action::PlayAnimation { name: "wave_start".to_string() },
            },
            Keyframe {
                time: 1.5f32.to_bits(),
                action: Action::PlayAnimation { name: "wave_end".to_string() },
            },
        ],
        next: Some("idle".to_string()),
        interruptible: true,
    };

    let envelope = IpcEnvelope::new(
        ProcessId::Brain,
        ProcessId::Theater,
        IpcMessage::ExecuteScript { script: script.clone() },
    );

    let encoded = envelope.encode().unwrap();
    let decoded = IpcEnvelope::decode(&encoded[4..]).unwrap();

    assert_eq!(decoded.source, ProcessId::Brain);
    assert_eq!(decoded.target, ProcessId::Theater);

    if let IpcMessage::ExecuteScript { script: decoded_script } = decoded.payload {
        assert_eq!(decoded_script.id, "wave");
        assert_eq!(decoded_script.duration.map(f32::from_bits), Some(3.0));
        assert_eq!(decoded_script.keyframes.len(), 2);
        assert_eq!(decoded_script.next, Some("idle".to_string()));
    } else {
        panic!("Expected ExecuteScript message");
    }
}

#[test]
fn length_prefix_is_correct() {
    let envelope = IpcEnvelope::new(ProcessId::App, ProcessId::Theater, IpcMessage::Ping);
    let encoded = envelope.encode().unwrap();
    let len = le_len(&encoded);
    assert_eq!(len, encoded.len() - 4);
}

#[test]
fn animations_available_message() {
    let envelope = IpcEnvelope::new(
        ProcessId::Theater,
        ProcessId::Brain,
        IpcMessage::AnimationsAvailable {
            animations: vec!["idle".to_string(), "walk".to_string()],
        },
    );

    let encoded = envelope.encode().unwrap();
    let decoded = IpcEnvelope::decode(&encoded[4..]).unwrap();

    if let IpcMessage::AnimationsAvailable { animations } = decoded.payload {
        assert_eq!(animations, vec!["idle", "walk"]);
    } else {
        panic!("Expected AnimationsAvailable message");
    }
}

#[test]
fn process_id_display() {
    assert_eq!(ProcessId::Theater.to_string(), "Theater");
    assert_eq!(ProcessId::Brain.to_string(), "Brain");
}

#[test]
fn exact_bytes_of_a_ping() {
    let e = IpcEnvelope::with_timestamp(ProcessId::Theater, ProcessId::App, IpcMessage::Ping, 1234);
    let frame = e.encode().unwrap();
    let text = "{\"source\":\"Theater\",\"target\":\"App\",\"payload\":\"Ping\",\"timestamp\":1234}";
    assert_eq!(&frame[4..], text.as_bytes());
    assert_eq!(&frame[..4], &[text.len() as u8, 0, 0, 0]);
}

#[test]
fn exact_bytes_of_a_drag() {
    let e = IpcEnvelope::with_timestamp(
        ProcessId::Theater,
        ProcessId::Brain,
        IpcMessage::PetDragCompleted { x: -12, y: 340 },
        -5,
    );
    let frame = e.encode().unwrap();
    let text = "{\"source\":\"Theater\",\"target\":\"Brain\",\"payload\":{\"PetDragCompleted\":{\"x\":-12,\"y\":340}},\"timestamp\":-5}";
    assert_eq!(&frame[4..], text.as_bytes());
}

#[test]
fn payload_is_json_that_another_parser_reads() {
    let e = IpcEnvelope::with_timestamp(
        ProcessId::Tray,
        ProcessId::Brain,
        IpcMessage::UserTextInput { text: "say \"hi\"\n\u{1}\\ caf\u{e9} \u{1F431}".to_string() },
        i64::MIN,
    );
    let frame = e.encode().unwrap();
    let value: serde_json::Value = serde_json::from_slice(&frame[4..]).unwrap();
    assert_eq!(value["source"], "Tray");
    assert_eq!(value["target"], "Brain");
    assert_eq!(value["timestamp"], i64::MIN);
    assert_eq!(value["payload"]["UserTextInput"]["text"], "say \"hi\"\n\u{1}\\ caf\u{e9} \u{1F431}");
    // and the other parser's own compact output is byte for byte the payload
    // once the keys stand in the order of the record
    let back = IpcEnvelope::decode(&frame[4..]).unwrap();
    match back.payload {
        IpcMessage::UserTextInput { text } => {
            assert_eq!(text, "say \"hi\"\n\u{1}\\ caf\u{e9} \u{1F431}")
        },
        _ => panic!("wrong payload"),
    }
    assert_eq!(back.timestamp, i64::MIN);
}

#[test]
fn every_message_kind_round_trips() {
    let script = BehaviorScript {
        id: "s".to_string(),
        duration: None,
        keyframes: vec![
            Keyframe { time: 1, action: Action::MoveTo { x: 0.3f32.to_bits(), y: 0 } },
            Keyframe { time: 2, action: Action::Scale { factor: 1.2f32.to_bits() } },
            Keyframe { time: 3, action: Action::SetExpression { expression: "smile".to_string() } },
            Keyframe { time: 4, action: Action::Wait { duration: u32::MAX } },
            Keyframe { time: 5, action: Action::Random { scripts: vec![] } },
            Keyframe {
                time: 6,
                action: Action::Random { scripts: vec!["a".to_string(), "b,c".to_string()] },
            },
        ],
        next: Some("".to_string()),
        interruptible: false,
    };
    let messages = vec![
        IpcMessage::PetClicked,
        IpcMessage::PetDragCompleted { x: i32::MIN, y: i32::MAX },
        IpcMessage::AnimationsAvailable { animations: vec![] },
        IpcMessage::AnimationsAvailable { animations: vec!["]".to_string()] },
        IpcMessage::ExecuteScript { script },
        IpcMessage::ExecuteScript {
            script: BehaviorScript {
                id: "empty".to_string(),
                duration: Some(0),
                keyframes: vec![],
                next: None,
                interruptible: true,
            },
        },
        IpcMessage::AiThinking { is_thinking: true },
        IpcMessage::UserTextInput { text: "null".to_string() },
        IpcMessage::ProcessReady,
        IpcMessage::Shutdown,
        IpcMessage::Ping,
        IpcMessage::Pong,
        IpcMessage::TogglePetVisibility,
        IpcMessage::OpenManager,
        IpcMessage::OpenSettings,
        IpcMessage::QuitApp,
        IpcMessage::PetVisibilityChanged { visible: false },
        IpcMessage::UpdateAppearance {
            pet_scale: 1.5f32.to_bits(),
            opacity: 0.8f32.to_bits(),
            always_on_top: true,
        },
    ];
    for m in messages {
        let e = IpcEnvelope::with_timestamp(ProcessId::Brain, ProcessId::Theater, m, i64::MAX);
        let frame = e.encode().unwrap();
        assert_eq!(le_len(&frame), frame.len() - 4);
        let back = IpcEnvelope::decode(&frame[4..]).unwrap();
        assert_eq!(format!("{:?}", back), format!("{:?}", e));
        // decoding accepts nothing but what encoding writes
        assert_eq!(back.encode().unwrap(), frame);
    }
}

#[test]
fn decode_rejects_what_encode_does_not_write() {
    let good = "{\"source\":\"Theater\",\"target\":\"App\",\"payload\":\"Ping\",\"timestamp\":1234}";
    assert!(IpcEnvelope::decode(good.as_bytes()).is_ok());
    let bad = [
        "",
        "{}",
        "{\"source\":\"Theater\",\"target\":\"App\",\"payload\":\"Ping\",\"timestamp\":1234} ",
        " {\"source\":\"Theater\",\"target\":\"App\",\"payload\":\"Ping\",\"timestamp\":1234}",
        "{\"source\":\"Theater\",\"target\":\"App\",\"payload\":\"Ping\",\"timestamp\":01234}",
        "{\"source\":\"Theater\",\"target\":\"App\",\"payload\":\"Ping\",\"timestamp\":-0}",
        "{\"source\":\"Theater\",\"target\":\"App\",\"payload\":\"Ping\",\"timestamp\":9223372036854775808}",
        "{\"source\":\"Theater\",\"target\":\"App\",\"payload\":\"Peng\",\"timestamp\":1234}",
        "{\"source\":\"Nobody\",\"target\":\"App\",\"payload\":\"Ping\",\"timestamp\":1234}",
        "{\"target\":\"App\",\"source\":\"Theater\",\"payload\":\"Ping\",\"timestamp\":1234}",
        "{\"source\":\"Theater\",\"target\":\"App\",\"payload\":\"P\\u0069ng\",\"timestamp\":1234}",
        "{\"source\":\"Theater\",\"target\":\"App\",\"payload\":{\"Ping\":{}},\"timestamp\":1234}",
        "{\"source\":\"Theater\",\"target\":\"App\",\"payload\":{\"UserTextInput\":{\"text\":\"a\\u000ab\"}},\"timestamp\":1}",
    ];
    for text in bad {
        match IpcEnvelope::decode(text.as_bytes()) {
            Err(Error::IpcProtocol(_)) => {},
            other => panic!("accepted {:?}: {:?}", text, other),
        }
    }
    // bytes that are not UTF-8 inside a string
    let mut raw = b"{\"source\":\"Theater\",\"target\":\"App\",\"payload\":{\"UserTextInput\":{\"text\":\"".to_vec();
    raw.push(0xff);
    raw.extend_from_slice(b"\"}},\"timestamp\":1}");
    assert!(matches!(IpcEnvelope::decode(&raw), Err(Error::IpcProtocol(_))));
}

#[test]
fn encode_refuses_a_payload_above_the_maximum() {
    let text = "x".repeat(MAX_MESSAGE_SIZE as usize);
    let e = IpcEnvelope::with_timestamp(
        ProcessId::Tray,
        ProcessId::Brain,
        IpcMessage::UserTextInput { text },
        0,
    );
    match e.encode() {
        Err(Error::IpcMessageTooLarge(n)) => assert!(n > MAX_MESSAGE_SIZE),
        other => panic!("{:?}", other.map(|f| f.len())),
    }
    // the largest payload that fits
    let envelope_without_text = IpcEnvelope::with_timestamp(
        ProcessId::Tray,
        ProcessId::Brain,
        IpcMessage::UserTextInput { text: String::new() },
        0,
    );
    let overhead = envelope_without_text.encode().unwrap().len() - 4;
    let fits = IpcEnvelope::with_timestamp(
        ProcessId::Tray,
        ProcessId::Brain,
        IpcMessage::UserTextInput { text: "y".repeat(MAX_MESSAGE_SIZE as usize - overhead) },
        0,
    );
    let frame = fits.encode().unwrap();
    assert_eq!(frame.len(), 4 + MAX_MESSAGE_SIZE as usize);
    assert_eq!(&frame[..4], &[0, 0, 0x10, 0]);
}

#[test]
fn frame_header_is_little_endian_and_bounded() {
    assert_eq!(frame_len(&[0x34, 0x12, 0, 0]).unwrap(), 0x1234);
    assert_eq!(frame_len(&[0, 0, 0x10, 0]).unwrap(), 1_048_576);
    assert!(matches!(frame_len(&[1, 0, 0x10, 0]), Err(Error::IpcMessageTooLarge(1_048_577))));
    assert!(matches!(
        frame_len(&[0xff, 0xff, 0xff, 0xff]),
        Err(Error::IpcMessageTooLarge(u32::MAX))
    ));
}

#[test]
fn new_envelope_is_stamped_with_the_present() {
    let e = IpcEnvelope::new(ProcessId::App, ProcessId::Tray, IpcMessage::Shutdown);
    // after the year 2020, in milliseconds
    assert!(e.timestamp > 1_577_836_800_000);
    assert_eq!(e.source, ProcessId::App);
    assert_eq!(e.target, ProcessId::Tray);
}
