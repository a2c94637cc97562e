//! Envelopes on the wire.
//!
//! An envelope is a record of `source`, `target`, `payload` and `timestamp`
//! in that order. An identity is written as its name. A message without
//! members is written as its name; one with members as a record whose single
//! key is the name and whose value is the record of the members.

use crate::fields::{
    lemma_key_bool, lemma_key_int, lemma_key_str, lemma_key_str_list, parse_key_bool,
    parse_key_int, parse_key_str, parse_key_str_list, put_key_bool, put_key_int, put_key_str,
    put_key_str_list, read_key_bool, read_key_i32, read_key_i64, read_key_str, read_key_str_list,
    read_key_u32, ser_key_bool, ser_key_int, ser_key_str, ser_key_str_list, COLON, I32_MAX,
    I32_MIN, U32_MAX,
};
use crate::ipc::{EnvelopeView, IpcEnvelope, IpcMessage, MessageView, ProcessId};
use crate::json::{
    eat_byte, eat_lit, lemma_take_lit, lit, next_is, put_lit, take_byte, take_lit, text_eq,
    CLOSE_BRACE, COMMA, OPEN_BRACE, QUOTE,
};
use crate::text::{
    lemma_parse_str_roundtrip, lemma_ser_str_first, parse_str, parse_str_exec, put_str, ser_str,
};
use crate::wire_script::{
    lemma_script_roundtrip, lemma_take_byte, parse_script, parse_script_exec, put_script,
    ser_script, sig,
};
use vstd::prelude::*;

verus! {

// ---------------------------------------------------------------------------
// Identities
// ---------------------------------------------------------------------------
/// The name of an identity.
pub open spec fn pid_name(p: ProcessId) -> Seq<char> {
    match p {
        ProcessId::App => "App"@,
        ProcessId::Tray => "Tray"@,
        ProcessId::Theater => "Theater"@,
        ProcessId::Brain => "Brain"@,
        ProcessId::Manager => "Manager"@,
        ProcessId::Settings => "Settings"@,
    }
}

/// The identity that a name stands for.
pub open spec fn pid_of_name(name: Seq<char>) -> Option<ProcessId> {
    if name == "App"@ {
        Some(ProcessId::App)
    } else if name == "Tray"@ {
        Some(ProcessId::Tray)
    } else if name == "Theater"@ {
        Some(ProcessId::Theater)
    } else if name == "Brain"@ {
        Some(ProcessId::Brain)
    } else if name == "Manager"@ {
        Some(ProcessId::Manager)
    } else if name == "Settings"@ {
        Some(ProcessId::Settings)
    } else {
        None
    }
}

pub proof fn lemma_pid_names()
    ensures
        sig("App"@) == (3nat, 'A', 'p'),
        sig("Tray"@) == (4nat, 'T', 'r'),
        sig("Theater"@) == (7nat, 'T', 'h'),
        sig("Brain"@) == (5nat, 'B', 'r'),
        sig("Manager"@) == (7nat, 'M', 'a'),
        sig("Settings"@) == (8nat, 'S', 'e'),
{
    reveal_strlit("App");
    reveal_strlit("Tray");
    reveal_strlit("Theater");
    reveal_strlit("Brain");
    reveal_strlit("Manager");
    reveal_strlit("Settings");
}

/// Every identity is found again by its name, and by no other identity's.
pub proof fn lemma_pid_of_name(p: ProcessId)
    ensures
        pid_of_name(pid_name(p)) == Some(p),
{
    lemma_pid_names();
}

pub fn pid_name_exec(p: ProcessId) -> (r: &'static str)
    ensures
        r@ == pid_name(p),
{
    match p {
        ProcessId::App => "App",
        ProcessId::Tray => "Tray",
        ProcessId::Theater => "Theater",
        ProcessId::Brain => "Brain",
        ProcessId::Manager => "Manager",
        ProcessId::Settings => "Settings",
    }
}

pub fn pid_of_name_exec(name: &str) -> (r: Option<ProcessId>)
    ensures
        r == pid_of_name(name@),
{
    if text_eq(name, "App") {
        Some(ProcessId::App)
    } else if text_eq(name, "Tray") {
        Some(ProcessId::Tray)
    } else if text_eq(name, "Theater") {
        Some(ProcessId::Theater)
    } else if text_eq(name, "Brain") {
        Some(ProcessId::Brain)
    } else if text_eq(name, "Manager") {
        Some(ProcessId::Manager)
    } else if text_eq(name, "Settings") {
        Some(ProcessId::Settings)
    } else {
        None
    }
}

// ---------------------------------------------------------------------------
// Messages
// ---------------------------------------------------------------------------
/// The name of a message's kind.
pub open spec fn msg_name(m: MessageView) -> Seq<char> {
    match m {
        MessageView::PetClicked => "PetClicked"@,
        MessageView::PetDragCompleted { .. } => "PetDragCompleted"@,
        MessageView::AnimationsAvailable { .. } => "AnimationsAvailable"@,
        MessageView::ExecuteScript { .. } => "ExecuteScript"@,
        MessageView::AiThinking { .. } => "AiThinking"@,
        MessageView::UserTextInput { .. } => "UserTextInput"@,
        MessageView::ProcessReady => "ProcessReady"@,
        MessageView::Shutdown => "Shutdown"@,
        MessageView::Ping => "Ping"@,
        MessageView::Pong => "Pong"@,
        MessageView::TogglePetVisibility => "TogglePetVisibility"@,
        MessageView::OpenManager => "OpenManager"@,
        MessageView::OpenSettings => "OpenSettings"@,
        MessageView::QuitApp => "QuitApp"@,
        MessageView::PetVisibilityChanged { .. } => "PetVisibilityChanged"@,
        MessageView::UpdateAppearance { .. } => "UpdateAppearance"@,
    }
}

/// Whether a message has no members.
pub open spec fn msg_is_unit(m: MessageView) -> bool {
    match m {
        MessageView::PetClicked => true,
        MessageView::ProcessReady => true,
        MessageView::Shutdown => true,
        MessageView::Ping => true,
        MessageView::Pong => true,
        MessageView::TogglePetVisibility => true,
        MessageView::OpenManager => true,
        MessageView::OpenSettings => true,
        MessageView::QuitApp => true,
        _ => false,
    }
}

/// The message without members that a name stands for.
pub open spec fn unit_of_name(name: Seq<char>) -> Option<MessageView> {
    if name == "PetClicked"@ {
        Some(MessageView::PetClicked)
    } else if name == "ProcessReady"@ {
        Some(MessageView::ProcessReady)
    } else if name == "Shutdown"@ {
        Some(MessageView::Shutdown)
    } else if name == "Ping"@ {
        Some(MessageView::Ping)
    } else if name == "Pong"@ {
        Some(MessageView::Pong)
    } else if name == "TogglePetVisibility"@ {
        Some(MessageView::TogglePetVisibility)
    } else if name == "OpenManager"@ {
        Some(MessageView::OpenManager)
    } else if name == "OpenSettings"@ {
        Some(MessageView::OpenSettings)
    } else if name == "QuitApp"@ {
        Some(MessageView::QuitApp)
    } else {
        None
    }
}

pub proof fn lemma_msg_names()
    ensures
        sig("PetClicked"@) == (10nat, 'P', 'e'),
        sig("PetDragCompleted"@) == (16nat, 'P', 'e'),
        sig("AnimationsAvailable"@) == (19nat, 'A', 'n'),
        sig("ExecuteScript"@) == (13nat, 'E', 'x'),
        sig("AiThinking"@) == (10nat, 'A', 'i'),
        sig("UserTextInput"@) == (13nat, 'U', 's'),
        sig("ProcessReady"@) == (12nat, 'P', 'r'),
        sig("Shutdown"@) == (8nat, 'S', 'h'),
        sig("Ping"@) == (4nat, 'P', 'i'),
        sig("Pong"@) == (4nat, 'P', 'o'),
        sig("TogglePetVisibility"@) == (19nat, 'T', 'o'),
        sig("OpenManager"@) == (11nat, 'O', 'p'),
        sig("OpenSettings"@) == (12nat, 'O', 'p'),
        sig("QuitApp"@) == (7nat, 'Q', 'u'),
        sig("PetVisibilityChanged"@) == (20nat, 'P', 'e'),
        sig("UpdateAppearance"@) == (16nat, 'U', 'p'),
{
    reveal_strlit("PetClicked");
    reveal_strlit("PetDragCompleted");
    reveal_strlit("AnimationsAvailable");
    reveal_strlit("ExecuteScript");
    reveal_strlit("AiThinking");
    reveal_strlit("UserTextInput");
    reveal_strlit("ProcessReady");
    reveal_strlit("Shutdown");
    reveal_strlit("Ping");
    reveal_strlit("Pong");
    reveal_strlit("TogglePetVisibility");
    reveal_strlit("OpenManager");
    reveal_strlit("OpenSettings");
    reveal_strlit("QuitApp");
    reveal_strlit("PetVisibilityChanged");
    reveal_strlit("UpdateAppearance");
}

/// The members of a message that has some.
pub open spec fn ser_msg_fields(m: MessageView) -> Seq<u8> {
    match m {
        MessageView::PetDragCompleted { x, y } => ser_key_int(lit("\"x\":"), x as int)
            + seq![COMMA] + ser_key_int(lit("\"y\":"), y as int),
        MessageView::AnimationsAvailable { animations } => ser_key_str_list(
            lit("\"animations\":"),
            animations,
        ),
        MessageView::ExecuteScript { script } => lit("\"script\":") + ser_script(script),
        MessageView::AiThinking { is_thinking } => ser_key_bool(
            lit("\"is_thinking\":"),
            is_thinking,
        ),
        MessageView::UserTextInput { text } => ser_key_str(lit("\"text\":"), text),
        MessageView::PetVisibilityChanged { visible } => ser_key_bool(
            lit("\"visible\":"),
            visible,
        ),
        MessageView::UpdateAppearance { pet_scale, opacity, always_on_top } => ser_key_int(
            lit("\"pet_scale\":"),
            pet_scale as int,
        ) + seq![COMMA] + ser_key_int(lit("\"opacity\":"), opacity as int) + seq![COMMA]
            + ser_key_bool(lit("\"always_on_top\":"), always_on_top),
        _ => Seq::empty(),
    }
}

/// A message on the wire.
#[verifier::opaque]
pub open spec fn ser_msg(m: MessageView) -> Seq<u8> {
    if msg_is_unit(m) {
        ser_str(msg_name(m))
    } else {
        seq![OPEN_BRACE] + ser_str(msg_name(m)) + seq![COLON, OPEN_BRACE] + ser_msg_fields(m)
            + seq![CLOSE_BRACE, CLOSE_BRACE]
    }
}

#[verifier::opaque]
pub open spec fn parse_drag(s: Seq<u8>) -> Option<(MessageView, Seq<u8>)> {
    match parse_key_int(s, lit("\"x\":"), I32_MIN as int, I32_MAX as int) {
        Some((x, s1)) => match take_byte(s1, COMMA) {
            Some(s2) => match parse_key_int(s2, lit("\"y\":"), I32_MIN as int, I32_MAX as int) {
                Some((y, rest)) => Some(
                    (MessageView::PetDragCompleted { x: x as i32, y: y as i32 }, rest),
                ),
                None => None,
            },
            None => None,
        },
        None => None,
    }
}

#[verifier::opaque]
pub open spec fn parse_animations(s: Seq<u8>) -> Option<(MessageView, Seq<u8>)> {
    match parse_key_str_list(s, lit("\"animations\":")) {
        Some((animations, rest)) => Some((MessageView::AnimationsAvailable { animations }, rest)),
        None => None,
    }
}

#[verifier::opaque]
pub open spec fn parse_execute(s: Seq<u8>) -> Option<(MessageView, Seq<u8>)> {
    match take_lit(s, lit("\"script\":")) {
        Some(s1) => match parse_script(s1) {
            Some((script, rest)) => Some((MessageView::ExecuteScript { script }, rest)),
            None => None,
        },
        None => None,
    }
}

#[verifier::opaque]
pub open spec fn parse_thinking(s: Seq<u8>) -> Option<(MessageView, Seq<u8>)> {
    match parse_key_bool(s, lit("\"is_thinking\":")) {
        Some((is_thinking, rest)) => Some((MessageView::AiThinking { is_thinking }, rest)),
        None => None,
    }
}

#[verifier::opaque]
pub open spec fn parse_text_input(s: Seq<u8>) -> Option<(MessageView, Seq<u8>)> {
    match parse_key_str(s, lit("\"text\":")) {
        Some((text, rest)) => Some((MessageView::UserTextInput { text }, rest)),
        None => None,
    }
}

#[verifier::opaque]
pub open spec fn parse_visibility(s: Seq<u8>) -> Option<(MessageView, Seq<u8>)> {
    match parse_key_bool(s, lit("\"visible\":")) {
        Some((visible, rest)) => Some((MessageView::PetVisibilityChanged { visible }, rest)),
        None => None,
    }
}

#[verifier::opaque]
pub open spec fn parse_appearance(s: Seq<u8>) -> Option<(MessageView, Seq<u8>)> {
    match parse_key_int(s, lit("\"pet_scale\":"), 0, U32_MAX as int) {
        Some((pet_scale, s1)) => match take_byte(s1, COMMA) {
            Some(s2) => match parse_key_int(s2, lit("\"opacity\":"), 0, U32_MAX as int) {
                Some((opacity, s3)) => match take_byte(s3, COMMA) {
                    Some(s4) => match parse_key_bool(s4, lit("\"always_on_top\":")) {
                        Some((always_on_top, rest)) => Some(
                            (
                                MessageView::UpdateAppearance {
                                    pet_scale: pet_scale as u32,
                                    opacity: opacity as u32,
                                    always_on_top,
                                },
                                rest,
                            ),
                        ),
                        None => None,
                    },
                    None => None,
                },
                None => None,
            },
            None => None,
        },
        None => None,
    }
}

/// Reading the members of the message whose kind has the name `name`.
pub open spec fn parse_msg_fields(name: Seq<char>, s: Seq<u8>) -> Option<
    (MessageView, Seq<u8>),
> {
    if name == "PetDragCompleted"@ {
        parse_drag(s)
    } else if name == "AnimationsAvailable"@ {
        parse_animations(s)
    } else if name == "ExecuteScript"@ {
        parse_execute(s)
    } else if name == "AiThinking"@ {
        parse_thinking(s)
    } else if name == "UserTextInput"@ {
        parse_text_input(s)
    } else if name == "PetVisibilityChanged"@ {
        parse_visibility(s)
    } else if name == "UpdateAppearance"@ {
        parse_appearance(s)
    } else {
        None
    }
}

pub open spec fn parse_msg_record(s: Seq<u8>) -> Option<(MessageView, Seq<u8>)> {
    match take_byte(s, OPEN_BRACE) {
        Some(s1) => match parse_str(s1) {
            Some((name, s2)) => match take_byte(s2, COLON) {
                Some(s3) => match take_byte(s3, OPEN_BRACE) {
                    Some(s4) => match parse_msg_fields(name, s4) {
                        Some((m, s5)) => match take_byte(s5, CLOSE_BRACE) {
                            Some(s6) => match take_byte(s6, CLOSE_BRACE) {
                                Some(rest) => Some((m, rest)),
                                None => None,
                            },
                            None => None,
                        },
                        None => None,
                    },
                    None => None,
                },
                None => None,
            },
            None => None,
        },
        None => None,
    }
}

#[verifier::opaque]
pub open spec fn parse_msg(s: Seq<u8>) -> Option<(MessageView, Seq<u8>)> {
    if s.len() > 0 && s[0] == QUOTE {
        match parse_str(s) {
            Some((name, rest)) => match unit_of_name(name) {
                Some(m) => Some((m, rest)),
                None => None,
            },
            None => None,
        }
    } else {
        parse_msg_record(s)
    }
}

proof fn lemma_drag(x: i32, y: i32, rest: Seq<u8>)
    requires
        rest.len() > 0,
        rest[0] == CLOSE_BRACE,
    ensures
        parse_drag(ser_msg_fields(MessageView::PetDragCompleted { x, y }) + rest) == Some(
            (MessageView::PetDragCompleted { x, y }, rest),
        ),
{
    reveal(parse_drag);
    let m = MessageView::PetDragCompleted { x, y };
    let t2 = ser_key_int(lit("\"y\":"), y as int) + rest;
    let t1 = seq![COMMA] + t2;
    assert(ser_msg_fields(m) + rest =~= ser_key_int(lit("\"x\":"), x as int) + t1);
    lemma_key_int(lit("\"x\":"), x as int, I32_MIN as int, I32_MAX as int, t1);
    lemma_take_byte(COMMA, t2);
    lemma_key_int(lit("\"y\":"), y as int, I32_MIN as int, I32_MAX as int, rest);
}

proof fn lemma_execute(script: crate::script::ScriptView, rest: Seq<u8>)
    ensures
        parse_execute(ser_msg_fields(MessageView::ExecuteScript { script }) + rest) == Some(
            (MessageView::ExecuteScript { script }, rest),
        ),
{
    reveal(parse_execute);
    let m = MessageView::ExecuteScript { script };
    let t1 = ser_script(script) + rest;
    assert(ser_msg_fields(m) + rest =~= lit("\"script\":") + t1);
    lemma_take_lit(lit("\"script\":"), t1);
    lemma_script_roundtrip(script, rest);
}

proof fn lemma_appearance(pet_scale: u32, opacity: u32, always_on_top: bool, rest: Seq<u8>)
    ensures
        parse_appearance(
            ser_msg_fields(MessageView::UpdateAppearance { pet_scale, opacity, always_on_top })
                + rest,
        ) == Some((MessageView::UpdateAppearance { pet_scale, opacity, always_on_top }, rest)),
{
    reveal(parse_appearance);
    let m = MessageView::UpdateAppearance { pet_scale, opacity, always_on_top };
    let t4 = ser_key_bool(lit("\"always_on_top\":"), always_on_top) + rest;
    let t3 = seq![COMMA] + t4;
    let t2 = ser_key_int(lit("\"opacity\":"), opacity as int) + t3;
    let t1 = seq![COMMA] + t2;
    assert(ser_msg_fields(m) + rest =~= ser_key_int(lit("\"pet_scale\":"), pet_scale as int)
        + t1);
    lemma_key_int(lit("\"pet_scale\":"), pet_scale as int, 0, U32_MAX as int, t1);
    lemma_take_byte(COMMA, t2);
    lemma_key_int(lit("\"opacity\":"), opacity as int, 0, U32_MAX as int, t3);
    lemma_take_byte(COMMA, t4);
    lemma_key_bool(lit("\"always_on_top\":"), always_on_top, rest);
}

proof fn lemma_simple_fields(m: MessageView, rest: Seq<u8>)
    ensures
        m is AnimationsAvailable ==> parse_animations(ser_msg_fields(m) + rest) == Some((m, rest)),
        m is AiThinking ==> parse_thinking(ser_msg_fields(m) + rest) == Some((m, rest)),
        m is UserTextInput ==> parse_text_input(ser_msg_fields(m) + rest) == Some((m, rest)),
        m is PetVisibilityChanged ==> parse_visibility(ser_msg_fields(m) + rest) == Some(
            (m, rest),
        ),
{
    reveal(parse_animations);
    reveal(parse_thinking);
    reveal(parse_text_input);
    reveal(parse_visibility);
    match m {
        MessageView::AnimationsAvailable { animations } => {
            lemma_key_str_list(lit("\"animations\":"), animations, rest);
        },
        MessageView::AiThinking { is_thinking } => {
            lemma_key_bool(lit("\"is_thinking\":"), is_thinking, rest);
        },
        MessageView::UserTextInput { text } => {
            lemma_key_str(lit("\"text\":"), text, rest);
        },
        MessageView::PetVisibilityChanged { visible } => {
            lemma_key_bool(lit("\"visible\":"), visible, rest);
        },
        _ => {},
    }
}

pub proof fn lemma_msg_fields_roundtrip(m: MessageView, rest: Seq<u8>)
    requires
        !msg_is_unit(m),
        rest.len() > 0,
        rest[0] == CLOSE_BRACE,
    ensures
        parse_msg_fields(msg_name(m), ser_msg_fields(m) + rest) == Some((m, rest)),
{
    lemma_msg_names();
    lemma_simple_fields(m, rest);
    match m {
        MessageView::PetDragCompleted { x, y } => {
            lemma_drag(x, y, rest);
        },
        MessageView::ExecuteScript { script } => {
            lemma_execute(script, rest);
        },
        MessageView::UpdateAppearance { pet_scale, opacity, always_on_top } => {
            lemma_appearance(pet_scale, opacity, always_on_top, rest);
        },
        _ => {},
    }
}

pub proof fn lemma_msg_roundtrip(m: MessageView, rest: Seq<u8>)
    ensures
        parse_msg(ser_msg(m) + rest) == Some((m, rest)),
{
    reveal(ser_msg);
    reveal(parse_msg);
    let s = ser_msg(m) + rest;
    lemma_ser_str_first(msg_name(m));
    if msg_is_unit(m) {
        assert(s[0] == ser_str(msg_name(m))[0]);
        lemma_parse_str_roundtrip(msg_name(m), rest);
        lemma_msg_names();
    } else {
        let s6 = seq![CLOSE_BRACE] + rest;
        let s5 = seq![CLOSE_BRACE] + s6;
        let s4 = ser_msg_fields(m) + s5;
        let s3 = seq![OPEN_BRACE] + s4;
        let s2 = seq![COLON] + s3;
        let s1 = ser_str(msg_name(m)) + s2;
        assert(s =~= seq![OPEN_BRACE] + s1);
        assert(s[0] == OPEN_BRACE);
        lemma_take_byte(OPEN_BRACE, s1);
        lemma_parse_str_roundtrip(msg_name(m), s2);
        lemma_take_byte(COLON, s3);
        lemma_take_byte(OPEN_BRACE, s4);
        lemma_msg_fields_roundtrip(m, s5);
        lemma_take_byte(CLOSE_BRACE, s6);
        lemma_take_byte(CLOSE_BRACE, rest);
    }
}

pub fn msg_name_exec(m: &IpcMessage) -> (r: &'static str)
    ensures
        r@ == msg_name(m@),
{
    match m {
        IpcMessage::PetClicked => "PetClicked",
        IpcMessage::PetDragCompleted { .. } => "PetDragCompleted",
        IpcMessage::AnimationsAvailable { .. } => "AnimationsAvailable",
        IpcMessage::ExecuteScript { .. } => "ExecuteScript",
        IpcMessage::AiThinking { .. } => "AiThinking",
        IpcMessage::UserTextInput { .. } => "UserTextInput",
        IpcMessage::ProcessReady => "ProcessReady",
        IpcMessage::Shutdown => "Shutdown",
        IpcMessage::Ping => "Ping",
        IpcMessage::Pong => "Pong",
        IpcMessage::TogglePetVisibility => "TogglePetVisibility",
        IpcMessage::OpenManager => "OpenManager",
        IpcMessage::OpenSettings => "OpenSettings",
        IpcMessage::QuitApp => "QuitApp",
        IpcMessage::PetVisibilityChanged { .. } => "PetVisibilityChanged",
        IpcMessage::UpdateAppearance { .. } => "UpdateAppearance",
    }
}

fn put_msg_fields(out: &mut Vec<u8>, m: &IpcMessage)
    requires
        !msg_is_unit(m@),
    ensures
        final(out)@ == old(out)@ + ser_msg_fields(m@),
{
    match m {
        IpcMessage::PetDragCompleted { x, y } => {
            put_key_int(out, "\"x\":", *x as i64);
            out.push(COMMA);
            put_key_int(out, "\"y\":", *y as i64);
        },
        IpcMessage::AnimationsAvailable { animations } => {
            put_key_str_list(out, "\"animations\":", animations);
        },
        IpcMessage::ExecuteScript { script } => {
            put_lit(out, "\"script\":");
            put_script(out, script);
        },
        IpcMessage::AiThinking { is_thinking } => {
            put_key_bool(out, "\"is_thinking\":", *is_thinking);
        },
        IpcMessage::UserTextInput { text } => {
            put_key_str(out, "\"text\":", text.as_str());
        },
        IpcMessage::PetVisibilityChanged { visible } => {
            put_key_bool(out, "\"visible\":", *visible);
        },
        IpcMessage::UpdateAppearance { pet_scale, opacity, always_on_top } => {
            put_key_int(out, "\"pet_scale\":", *pet_scale as i64);
            out.push(COMMA);
            put_key_int(out, "\"opacity\":", *opacity as i64);
            out.push(COMMA);
            put_key_bool(out, "\"always_on_top\":", *always_on_top);
        },
        _ => {},
    }
    assert(final(out)@ =~= old(out)@ + ser_msg_fields(m@));
}

fn is_unit_exec(m: &IpcMessage) -> (r: bool)
    ensures
        r == msg_is_unit(m@),
{
    match m {
        IpcMessage::PetClicked => true,
        IpcMessage::ProcessReady => true,
        IpcMessage::Shutdown => true,
        IpcMessage::Ping => true,
        IpcMessage::Pong => true,
        IpcMessage::TogglePetVisibility => true,
        IpcMessage::OpenManager => true,
        IpcMessage::OpenSettings => true,
        IpcMessage::QuitApp => true,
        _ => false,
    }
}

pub fn put_msg(out: &mut Vec<u8>, m: &IpcMessage)
    ensures
        final(out)@ == old(out)@ + ser_msg(m@),
{
    reveal(ser_msg);
    if is_unit_exec(m) {
        put_str(out, msg_name_exec(m));
    } else {
        out.push(OPEN_BRACE);
        put_str(out, msg_name_exec(m));
        out.push(COLON);
        out.push(OPEN_BRACE);
        put_msg_fields(out, m);
        out.push(CLOSE_BRACE);
        out.push(CLOSE_BRACE);
        assert(final(out)@ =~= old(out)@ + ser_msg(m@));
    }
}

fn unit_of_name_exec(name: &str) -> (r: Option<IpcMessage>)
    ensures
        match r {
            Some(m) => unit_of_name(name@) == Some(m@),
            None => unit_of_name(name@) is None,
        },
{
    if text_eq(name, "PetClicked") {
        Some(IpcMessage::PetClicked)
    } else if text_eq(name, "ProcessReady") {
        Some(IpcMessage::ProcessReady)
    } else if text_eq(name, "Shutdown") {
        Some(IpcMessage::Shutdown)
    } else if text_eq(name, "Ping") {
        Some(IpcMessage::Ping)
    } else if text_eq(name, "Pong") {
        Some(IpcMessage::Pong)
    } else if text_eq(name, "TogglePetVisibility") {
        Some(IpcMessage::TogglePetVisibility)
    } else if text_eq(name, "OpenManager") {
        Some(IpcMessage::OpenManager)
    } else if text_eq(name, "OpenSettings") {
        Some(IpcMessage::OpenSettings)
    } else if text_eq(name, "QuitApp") {
        Some(IpcMessage::QuitApp)
    } else {
        None
    }
}

fn read_appearance(data: &[u8], pos: usize) -> (r: Option<(IpcMessage, usize)>)
    requires
        pos <= data.len(),
    ensures
        match r {
            Some((m, next)) => pos < next <= data.len() && parse_appearance(
                data@.skip(pos as int),
            ) == Some((m@, data@.skip(next as int))),
            None => parse_appearance(data@.skip(pos as int)) is None,
        },
{
    reveal(parse_appearance);
    let (pet_scale, at1) = read_key_u32(data, pos, "\"pet_scale\":")?;
    let at2: usize = eat_byte(data, at1, COMMA)?;
    let (opacity, at3) = read_key_u32(data, at2, "\"opacity\":")?;
    let at4: usize = eat_byte(data, at3, COMMA)?;
    let (always_on_top, next) = read_key_bool(data, at4, "\"always_on_top\":")?;
    Some((IpcMessage::UpdateAppearance { pet_scale, opacity, always_on_top }, next))
}

fn read_msg_fields(name: &str, data: &[u8], pos: usize) -> (r: Option<(IpcMessage, usize)>)
    requires
        pos <= data.len(),
    ensures
        match r {
            Some((m, next)) => pos <= next <= data.len() && parse_msg_fields(
                name@,
                data@.skip(pos as int),
            ) == Some((m@, data@.skip(next as int))),
            None => parse_msg_fields(name@, data@.skip(pos as int)) is None,
        },
{
    reveal(parse_drag);
    reveal(parse_animations);
    reveal(parse_execute);
    reveal(parse_thinking);
    reveal(parse_text_input);
    reveal(parse_visibility);
    if text_eq(name, "PetDragCompleted") {
        let (x, at1) = read_key_i32(data, pos, "\"x\":")?;
        let at2: usize = eat_byte(data, at1, COMMA)?;
        let (y, next) = read_key_i32(data, at2, "\"y\":")?;
        Some((IpcMessage::PetDragCompleted { x, y }, next))
    } else if text_eq(name, "AnimationsAvailable") {
        let (animations, next) = read_key_str_list(data, pos, "\"animations\":")?;
        Some((IpcMessage::AnimationsAvailable { animations }, next))
    } else if text_eq(name, "ExecuteScript") {
        let at1: usize = eat_lit(data, pos, "\"script\":")?;
        let (script, next) = parse_script_exec(data, at1)?;
        Some((IpcMessage::ExecuteScript { script }, next))
    } else if text_eq(name, "AiThinking") {
        let (is_thinking, next) = read_key_bool(data, pos, "\"is_thinking\":")?;
        Some((IpcMessage::AiThinking { is_thinking }, next))
    } else if text_eq(name, "UserTextInput") {
        let (text, next) = read_key_str(data, pos, "\"text\":")?;
        Some((IpcMessage::UserTextInput { text }, next))
    } else if text_eq(name, "PetVisibilityChanged") {
        let (visible, next) = read_key_bool(data, pos, "\"visible\":")?;
        Some((IpcMessage::PetVisibilityChanged { visible }, next))
    } else if text_eq(name, "UpdateAppearance") {
        read_appearance(data, pos)
    } else {
        None
    }
}

fn read_msg_record(data: &[u8], pos: usize) -> (r: Option<(IpcMessage, usize)>)
    requires
        pos <= data.len(),
    ensures
        match r {
            Some((m, next)) => pos < next <= data.len() && parse_msg_record(
                data@.skip(pos as int),
            ) == Some((m@, data@.skip(next as int))),
            None => parse_msg_record(data@.skip(pos as int)) is None,
        },
{
    let at1: usize = eat_byte(data, pos, OPEN_BRACE)?;
    let (name, at2) = parse_str_exec(data, at1)?;
    let at3: usize = eat_byte(data, at2, COLON)?;
    let at4: usize = eat_byte(data, at3, OPEN_BRACE)?;
    let (m, at5) = read_msg_fields(name.as_str(), data, at4)?;
    let at6: usize = eat_byte(data, at5, CLOSE_BRACE)?;
    let next: usize = eat_byte(data, at6, CLOSE_BRACE)?;
    Some((m, next))
}

pub fn parse_msg_exec(data: &[u8], pos: usize) -> (r: Option<(IpcMessage, usize)>)
    requires
        pos <= data.len(),
    ensures
        match r {
            Some((m, next)) => pos < next <= data.len() && parse_msg(data@.skip(pos as int))
                == Some((m@, data@.skip(next as int))),
            None => parse_msg(data@.skip(pos as int)) is None,
        },
{
    reveal(parse_msg);
    if next_is(data, pos, QUOTE) {
        let (name, next) = parse_str_exec(data, pos)?;
        let m = unit_of_name_exec(name.as_str())?;
        Some((m, next))
    } else {
        read_msg_record(data, pos)
    }
}

// ---------------------------------------------------------------------------
// Envelopes
// ---------------------------------------------------------------------------
/// An envelope on the wire.
#[verifier::opaque]
pub open spec fn ser_envelope(e: EnvelopeView) -> Seq<u8> {
    ser_key_str(lit("{\"source\":"), pid_name(e.source)) + seq![COMMA] + ser_key_str(
        lit("\"target\":"),
        pid_name(e.target),
    ) + seq![COMMA] + lit("\"payload\":") + ser_msg(e.payload) + seq![COMMA] + ser_key_int(
        lit("\"timestamp\":"),
        e.timestamp as int,
    ) + seq![CLOSE_BRACE]
}

pub open spec fn parse_envelope_end(
    source: ProcessId,
    target: ProcessId,
    payload: MessageView,
    s: Seq<u8>,
) -> Option<(EnvelopeView, Seq<u8>)> {
    match take_byte(s, COMMA) {
        Some(s1) => match parse_key_int(
            s1,
            lit("\"timestamp\":"),
            i64::MIN as int,
            i64::MAX as int,
        ) {
            Some((timestamp, s2)) => match take_byte(s2, CLOSE_BRACE) {
                Some(rest) => Some(
                    (EnvelopeView { source, target, payload, timestamp: timestamp as i64 }, rest),
                ),
                None => None,
            },
            None => None,
        },
        None => None,
    }
}

pub open spec fn parse_envelope_head(s: Seq<u8>) -> Option<(ProcessId, ProcessId, Seq<u8>)> {
    match parse_key_str(s, lit("{\"source\":")) {
        Some((n1, s1)) => match pid_of_name(n1) {
            Some(source) => match take_byte(s1, COMMA) {
                Some(s2) => match parse_key_str(s2, lit("\"target\":")) {
                    Some((n2, s3)) => match pid_of_name(n2) {
                        Some(target) => match take_byte(s3, COMMA) {
                            Some(s4) => match take_lit(s4, lit("\"payload\":")) {
                                Some(s5) => Some((source, target, s5)),
                                None => None,
                            },
                            None => None,
                        },
                        None => None,
                    },
                    None => None,
                },
                None => None,
            },
            None => None,
        },
        None => None,
    }
}

#[verifier::opaque]
pub open spec fn parse_envelope(s: Seq<u8>) -> Option<(EnvelopeView, Seq<u8>)> {
    match parse_envelope_head(s) {
        Some((source, target, s1)) => match parse_msg(s1) {
            Some((payload, s2)) => parse_envelope_end(source, target, payload, s2),
            None => None,
        },
        None => None,
    }
}

proof fn lemma_envelope_head_roundtrip(source: ProcessId, target: ProcessId, rest: Seq<u8>)
    ensures
        parse_envelope_head(
            ser_key_str(lit("{\"source\":"), pid_name(source)) + seq![COMMA] + ser_key_str(
                lit("\"target\":"),
                pid_name(target),
            ) + seq![COMMA] + lit("\"payload\":") + rest,
        ) == Some((source, target, rest)),
{
    let s4 = lit("\"payload\":") + rest;
    let s3 = seq![COMMA] + s4;
    let s2 = ser_key_str(lit("\"target\":"), pid_name(target)) + s3;
    let s1 = seq![COMMA] + s2;
    assert(ser_key_str(lit("{\"source\":"), pid_name(source)) + seq![COMMA] + ser_key_str(
        lit("\"target\":"),
        pid_name(target),
    ) + seq![COMMA] + lit("\"payload\":") + rest =~= ser_key_str(
        lit("{\"source\":"),
        pid_name(source),
    ) + s1);
    lemma_key_str(lit("{\"source\":"), pid_name(source), s1);
    lemma_pid_of_name(source);
    lemma_take_byte(COMMA, s2);
    lemma_key_str(lit("\"target\":"), pid_name(target), s3);
    lemma_pid_of_name(target);
    lemma_take_byte(COMMA, s4);
    lemma_take_lit(lit("\"payload\":"), rest);
}

proof fn lemma_envelope_end_roundtrip(e: EnvelopeView, rest: Seq<u8>)
    ensures
        parse_envelope_end(
            e.source,
            e.target,
            e.payload,
            seq![COMMA] + ser_key_int(lit("\"timestamp\":"), e.timestamp as int)
                + seq![CLOSE_BRACE] + rest,
        ) == Some((e, rest)),
{
    let s2 = seq![CLOSE_BRACE] + rest;
    let s1 = ser_key_int(lit("\"timestamp\":"), e.timestamp as int) + s2;
    assert(seq![COMMA] + ser_key_int(lit("\"timestamp\":"), e.timestamp as int)
        + seq![CLOSE_BRACE] + rest =~= seq![COMMA] + s1);
    lemma_take_byte(COMMA, s1);
    lemma_key_int(
        lit("\"timestamp\":"),
        e.timestamp as int,
        i64::MIN as int,
        i64::MAX as int,
        s2,
    );
    lemma_take_byte(CLOSE_BRACE, rest);
}

/// Reading a written envelope gives the envelope back, and leaves what
/// followed it.
pub proof fn lemma_envelope_roundtrip(e: EnvelopeView, rest: Seq<u8>)
    ensures
        parse_envelope(ser_envelope(e) + rest) == Some((e, rest)),
{
    reveal(ser_envelope);
    reveal(parse_envelope);
    let s2 = seq![COMMA] + ser_key_int(lit("\"timestamp\":"), e.timestamp as int)
        + seq![CLOSE_BRACE] + rest;
    let s1 = ser_msg(e.payload) + s2;
    assert(ser_envelope(e) + rest =~= ser_key_str(lit("{\"source\":"), pid_name(e.source))
        + seq![COMMA] + ser_key_str(lit("\"target\":"), pid_name(e.target)) + seq![COMMA] + lit(
        "\"payload\":",
    ) + s1);
    lemma_envelope_head_roundtrip(e.source, e.target, s1);
    lemma_msg_roundtrip(e.payload, s2);
    lemma_envelope_end_roundtrip(e, rest);
}

/// The name of an identity has at most eight characters, all ASCII.
pub proof fn lemma_pid_name_short(p: ProcessId)
    ensures
        vstd::utf8::is_ascii_chars(pid_name(p)),
        pid_name(p).len() <= 8,
{
    reveal_strlit("App");
    reveal_strlit("Tray");
    reveal_strlit("Theater");
    reveal_strlit("Brain");
    reveal_strlit("Manager");
    reveal_strlit("Settings");
}

/// The answer to a ping is short enough for a frame.
pub proof fn lemma_pong_fits(to: ProcessId, now: i64)
    ensures
        crate::ipc::spec_encode(crate::router::pong_for(to, now)) is Some,
{
    let e = crate::router::pong_for(to, now);
    reveal(ser_envelope);
    reveal(ser_msg);
    reveal(crate::fields::ser_key_str);
    reveal(crate::fields::ser_key_int);
    reveal_strlit("{\"source\":");
    reveal_strlit("\"target\":");
    reveal_strlit("\"payload\":");
    reveal_strlit("\"timestamp\":");
    reveal_strlit("Pong");
    crate::json::lemma_lit_len("{\"source\":");
    crate::json::lemma_lit_len("\"target\":");
    crate::json::lemma_lit_len("\"payload\":");
    crate::json::lemma_lit_len("\"timestamp\":");
    lemma_pid_name_short(e.source);
    lemma_pid_name_short(e.target);
    crate::text::lemma_ser_str_len(pid_name(e.source));
    crate::text::lemma_ser_str_len(pid_name(e.target));
    crate::text::lemma_ser_str_len("Pong"@);
    crate::json::lemma_ser_int_len(now as int);
    assert(ser_envelope(e).len() <= 300);
}

pub fn put_envelope(out: &mut Vec<u8>, e: &IpcEnvelope)
    ensures
        final(out)@ == old(out)@ + ser_envelope(e@),
{
    reveal(ser_envelope);
    put_key_str(out, "{\"source\":", pid_name_exec(e.source));
    out.push(COMMA);
    put_key_str(out, "\"target\":", pid_name_exec(e.target));
    out.push(COMMA);
    put_lit(out, "\"payload\":");
    put_msg(out, &e.payload);
    out.push(COMMA);
    put_key_int(out, "\"timestamp\":", e.timestamp);
    out.push(CLOSE_BRACE);
    assert(final(out)@ =~= old(out)@ + ser_envelope(e@));
}

fn read_envelope_head(data: &[u8], pos: usize) -> (r: Option<(ProcessId, ProcessId, usize)>)
    requires
        pos <= data.len(),
    ensures
        match r {
            Some((source, target, next)) => pos < next <= data.len() && parse_envelope_head(
                data@.skip(pos as int),
            ) == Some((source, target, data@.skip(next as int))),
            None => parse_envelope_head(data@.skip(pos as int)) is None,
        },
{
    let (n1, at1) = read_key_str(data, pos, "{\"source\":")?;
    let source = pid_of_name_exec(n1.as_str())?;
    let at2: usize = eat_byte(data, at1, COMMA)?;
    let (n2, at3) = read_key_str(data, at2, "\"target\":")?;
    let target = pid_of_name_exec(n2.as_str())?;
    let at4: usize = eat_byte(data, at3, COMMA)?;
    let next: usize = eat_lit(data, at4, "\"payload\":")?;
    Some((source, target, next))
}

pub fn parse_envelope_exec(data: &[u8], pos: usize) -> (r: Option<(IpcEnvelope, usize)>)
    requires
        pos <= data.len(),
    ensures
        match r {
            Some((e, next)) => pos < next <= data.len() && parse_envelope(data@.skip(pos as int))
                == Some((e@, data@.skip(next as int))),
            None => parse_envelope(data@.skip(pos as int)) is None,
        },
{
    reveal(parse_envelope);
    let (source, target, at1) = read_envelope_head(data, pos)?;
    let (payload, at2) = parse_msg_exec(data, at1)?;
    let at3: usize = eat_byte(data, at2, COMMA)?;
    let (timestamp, at4) = read_key_i64(data, at3, "\"timestamp\":")?;
    let next: usize = eat_byte(data, at4, CLOSE_BRACE)?;
    Some((IpcEnvelope { source, target, payload, timestamp }, next))
}

} // verus!
