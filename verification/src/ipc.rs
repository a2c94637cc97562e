//! The messages of the bus and the envelope that routes them.

use crate::clock::now_millis;
use crate::error::Error;
use crate::json::bytes_eq;
use crate::script::{texts, BehaviorScript, ScriptView};
use crate::wire::{
    lemma_envelope_roundtrip, parse_envelope, parse_envelope_exec, pid_name, pid_name_exec,
    put_envelope, ser_envelope,
};
use vstd::prelude::*;

verus! {

/// Largest payload, in bytes, that a frame may carry.
pub const MAX_MESSAGE_SIZE: u32 = 1_048_576;

/// Logical endpoint on the bus: the coordinator (`App`) or one of its
/// sibling processes.
#[derive(Debug, Clone, Copy, PartialEq, Eq, Hash, Structural)]
pub enum ProcessId {
    App,
    Tray,
    Theater,
    Brain,
    Manager,
    Settings,
}

/// What an envelope carries.
#[derive(Debug, Clone)]
pub enum IpcMessage {
    PetClicked,
    PetDragCompleted { x: i32, y: i32 },
    AnimationsAvailable { animations: Vec<String> },
    ExecuteScript { script: BehaviorScript },
    AiThinking { is_thinking: bool },
    UserTextInput { text: String },
    ProcessReady,
    Shutdown,
    Ping,
    Pong,
    TogglePetVisibility,
    OpenManager,
    OpenSettings,
    QuitApp,
    PetVisibilityChanged { visible: bool },
    /// Scale and opacity are single-precision numbers, held as their
    /// IEEE-754 bit patterns.
    UpdateAppearance { pet_scale: u32, opacity: u32, always_on_top: bool },
}

/// A message with its sender, its addressee and the time, in milliseconds
/// since the Unix epoch, at which it was made.
#[derive(Debug, Clone)]
pub struct IpcEnvelope {
    pub source: ProcessId,
    pub target: ProcessId,
    pub payload: IpcMessage,
    pub timestamp: i64,
}

/// What an [`IpcMessage`] holds, as mathematical values.
pub ghost enum MessageView {
    PetClicked,
    PetDragCompleted { x: i32, y: i32 },
    AnimationsAvailable { animations: Seq<Seq<char>> },
    ExecuteScript { script: ScriptView },
    AiThinking { is_thinking: bool },
    UserTextInput { text: Seq<char> },
    ProcessReady,
    Shutdown,
    Ping,
    Pong,
    TogglePetVisibility,
    OpenManager,
    OpenSettings,
    QuitApp,
    PetVisibilityChanged { visible: bool },
    UpdateAppearance { pet_scale: u32, opacity: u32, always_on_top: bool },
}

/// What an [`IpcEnvelope`] holds, as mathematical values.
pub ghost struct EnvelopeView {
    pub source: ProcessId,
    pub target: ProcessId,
    pub payload: MessageView,
    pub timestamp: i64,
}

impl View for IpcMessage {
    type V = MessageView;

    open spec fn view(&self) -> MessageView {
        match *self {
            IpcMessage::PetClicked => MessageView::PetClicked,
            IpcMessage::PetDragCompleted { x, y } => MessageView::PetDragCompleted { x, y },
            IpcMessage::AnimationsAvailable { animations } => MessageView::AnimationsAvailable {
                animations: texts(animations@),
            },
            IpcMessage::ExecuteScript { script } => MessageView::ExecuteScript { script: script@ },
            IpcMessage::AiThinking { is_thinking } => MessageView::AiThinking { is_thinking },
            IpcMessage::UserTextInput { text } => MessageView::UserTextInput { text: text@ },
            IpcMessage::ProcessReady => MessageView::ProcessReady,
            IpcMessage::Shutdown => MessageView::Shutdown,
            IpcMessage::Ping => MessageView::Ping,
            IpcMessage::Pong => MessageView::Pong,
            IpcMessage::TogglePetVisibility => MessageView::TogglePetVisibility,
            IpcMessage::OpenManager => MessageView::OpenManager,
            IpcMessage::OpenSettings => MessageView::OpenSettings,
            IpcMessage::QuitApp => MessageView::QuitApp,
            IpcMessage::PetVisibilityChanged { visible } => MessageView::PetVisibilityChanged {
                visible,
            },
            IpcMessage::UpdateAppearance {
                pet_scale,
                opacity,
                always_on_top,
            } => MessageView::UpdateAppearance { pet_scale, opacity, always_on_top },
        }
    }
}

impl View for IpcEnvelope {
    type V = EnvelopeView;

    open spec fn view(&self) -> EnvelopeView {
        EnvelopeView {
            source: self.source,
            target: self.target,
            payload: self.payload@,
            timestamp: self.timestamp,
        }
    }
}

// ---------------------------------------------------------------------------
// Frames
// ---------------------------------------------------------------------------
/// The four bytes of a length, least significant byte first.
pub open spec fn le_bytes(n: nat) -> Seq<u8> {
    seq![
        (n % 256) as u8,
        (n / 256 % 256) as u8,
        (n / 65536 % 256) as u8,
        (n / 16777216 % 256) as u8,
    ]
}

/// The number that four bytes stand for, least significant byte first.
pub open spec fn le_value(b: Seq<u8>) -> nat {
    (b[0] as nat) + 256 * (b[1] as nat) + 65536 * (b[2] as nat) + 16777216 * (b[3] as nat)
}

/// The bytes of an envelope without the length before them.
pub open spec fn payload_bytes(e: EnvelopeView) -> Seq<u8> {
    ser_envelope(e)
}

/// The frame of an envelope: the payload's length in four bytes, least
/// significant first, then the payload. There is none where the payload is
/// longer than [`MAX_MESSAGE_SIZE`].
pub open spec fn spec_encode(e: EnvelopeView) -> Option<Seq<u8>> {
    let p = payload_bytes(e);
    if p.len() <= MAX_MESSAGE_SIZE {
        Some(le_bytes(p.len()) + p)
    } else {
        None
    }
}

/// The envelope whose payload bytes are `data`, if there is one.
pub open spec fn spec_decode(data: Seq<u8>) -> Option<EnvelopeView> {
    if exists|e: EnvelopeView| payload_bytes(e) == data {
        Some(choose|e: EnvelopeView| payload_bytes(e) == data)
    } else {
        None
    }
}

/// The length that an error reports for a payload of `n` bytes.
pub open spec fn reported_size(n: nat) -> u32 {
    if n > u32::MAX {
        u32::MAX
    } else {
        n as u32
    }
}

/// Four bytes, read least significant first, give back the length that was
/// written.
pub proof fn lemma_le_roundtrip(n: nat)
    requires
        n <= u32::MAX,
    ensures
        le_bytes(n).len() == 4,
        le_value(le_bytes(n)) == n,
{
}

/// Two envelopes with the same payload bytes are the same envelope.
pub proof fn lemma_payload_bytes_injective(a: EnvelopeView, b: EnvelopeView)
    requires
        payload_bytes(a) == payload_bytes(b),
    ensures
        a == b,
{
    lemma_envelope_roundtrip(a, Seq::empty());
    lemma_envelope_roundtrip(b, Seq::empty());
}

/// Decoding the payload bytes of an envelope gives that envelope.
pub proof fn lemma_decode_payload(e: EnvelopeView)
    ensures
        spec_decode(payload_bytes(e)) == Some(e),
{
    let c = choose|c: EnvelopeView| payload_bytes(c) == payload_bytes(e);
    lemma_payload_bytes_injective(c, e);
}

/// Round trip: decoding an encoded frame without its first four bytes gives
/// the envelope that was encoded, with its source, target, payload and
/// timestamp.
pub proof fn lemma_decode_inverts_encode(e: EnvelopeView)
    requires
        spec_encode(e) is Some,
    ensures
        spec_decode(spec_encode(e)->0.skip(4)) == Some(e),
{
    let f = spec_encode(e)->0;
    assert(f.skip(4) =~= payload_bytes(e));
    lemma_decode_payload(e);
}

/// Length prefix: the first four bytes of an encoded frame, read least
/// significant first, are the number of bytes that follow them.
pub proof fn lemma_length_prefix(e: EnvelopeView)
    requires
        spec_encode(e) is Some,
    ensures
        spec_encode(e)->0.len() >= 4,
        le_value(spec_encode(e)->0.take(4)) == spec_encode(e)->0.len() - 4,
{
    let p = payload_bytes(e);
    let f = spec_encode(e)->0;
    lemma_le_roundtrip(p.len());
    assert(f.take(4) =~= le_bytes(p.len()));
}

/// Writes a length as four bytes, least significant first.
pub fn put_len(out: &mut Vec<u8>, n: u32)
    ensures
        final(out)@ == old(out)@ + le_bytes(n as nat),
{
    out.push((n % 256) as u8);
    out.push((n / 256 % 256) as u8);
    out.push((n / 65536 % 256) as u8);
    out.push((n / 16777216 % 256) as u8);
    assert(final(out)@ =~= old(out)@ + le_bytes(n as nat));
}

/// Reads the length that the four bytes of a frame's header declare, and
/// refuses one above [`MAX_MESSAGE_SIZE`].
pub fn frame_len(header: &[u8; 4]) -> (r: Result<usize, Error>)
    ensures
        match r {
            Ok(n) => n == le_value(header@) && n <= MAX_MESSAGE_SIZE,
            Err(e) => le_value(header@) > MAX_MESSAGE_SIZE && e == Error::IpcMessageTooLarge(
                le_value(header@) as u32,
            ),
        },
{
    let n: u32 = (header[0] as u32) + 256 * (header[1] as u32) + 65536 * (header[2] as u32)
        + 16777216 * (header[3] as u32);
    if n > MAX_MESSAGE_SIZE {
        Err(Error::IpcMessageTooLarge(n))
    } else {
        Ok(n as usize)
    }
}

impl ProcessId {
    /// The identity's name.
    pub fn as_str(&self) -> (r: &'static str)
        ensures
            r@ == pid_name(*self),
    {
        pid_name_exec(*self)
    }

    /// The identity's name, as an owned string.
    pub fn to_string(&self) -> (r: String)
        ensures
            r@ == pid_name(*self),
    {
        pid_name_exec(*self).to_owned()
    }
}

impl IpcEnvelope {
    /// An envelope with the given timestamp.
    pub fn with_timestamp(
        source: ProcessId,
        target: ProcessId,
        payload: IpcMessage,
        timestamp: i64,
    ) -> (r: Self)
        ensures
            r == (IpcEnvelope { source, target, payload, timestamp }),
    {
        IpcEnvelope { source, target, payload, timestamp }
    }

    /// An envelope stamped with the current time.
    pub fn new(source: ProcessId, target: ProcessId, payload: IpcMessage) -> (r: Self)
        ensures
            r.source == source,
            r.target == target,
            r.payload == payload,
    {
        let timestamp: i64 = now_millis();
        IpcEnvelope { source, target, payload, timestamp }
    }

    /// The frame of this envelope, or `IpcMessageTooLarge` where its payload
    /// is longer than [`MAX_MESSAGE_SIZE`].
    pub fn encode(&self) -> (r: Result<Vec<u8>, Error>)
        ensures
            match r {
                Ok(f) => spec_encode(self@) == Some(f@),
                Err(e) => spec_encode(self@) is None && e == Error::IpcMessageTooLarge(
                    reported_size(payload_bytes(self@).len()),
                ),
            },
    {
        let mut payload: Vec<u8> = Vec::new();
        put_envelope(&mut payload, self);
        assert(payload@ =~= payload_bytes(self@));
        let n: usize = payload.len();
        if n > 1_048_576 {
            let size: u32 = if n > 0xffff_ffff {
                0xffff_ffff
            } else {
                n as u32
            };
            return Err(Error::IpcMessageTooLarge(size));
        }
        let mut buf: Vec<u8> = Vec::new();
        put_len(&mut buf, n as u32);
        buf.extend_from_slice(payload.as_slice());
        assert(buf@ =~= le_bytes(n as nat) + payload@);
        Ok(buf)
    }

    /// The envelope whose payload bytes are `data`, or `IpcProtocol` where
    /// they are those of no envelope.
    pub fn decode(data: &[u8]) -> (r: Result<IpcEnvelope, Error>)
        ensures
            match r {
                Ok(e) => spec_decode(data@) == Some(e@),
                Err(e) => spec_decode(data@) is None && e is IpcProtocol,
            },
    {
        assert(data@.skip(0) =~= data@);
        let parsed = parse_envelope_exec(data, 0);
        match parsed {
            Some((e, next)) => {
                if next == data.len() {
                    let mut again: Vec<u8> = Vec::new();
                    put_envelope(&mut again, &e);
                    assert(again@ =~= payload_bytes(e@));
                    if bytes_eq(again.as_slice(), data) {
                        proof {
                            lemma_decode_payload(e@);
                        }
                        return Ok(e);
                    }
                }
                proof {
                    assert forall|v: EnvelopeView| payload_bytes(v) != data@ by {
                        if payload_bytes(v) == data@ {
                            lemma_envelope_roundtrip(v, Seq::empty());
                            assert(payload_bytes(v) + Seq::<u8>::empty() =~= data@);
                            assert(parse_envelope(data@) == Some((v, Seq::<u8>::empty())));
                            assert(data@.skip(next as int).len() == 0);
                        }
                    }
                }
                Err(Error::IpcProtocol("not an envelope in canonical form".to_owned()))
            },
            None => {
                proof {
                    assert forall|v: EnvelopeView| payload_bytes(v) != data@ by {
                        if payload_bytes(v) == data@ {
                            lemma_envelope_roundtrip(v, Seq::empty());
                            assert(payload_bytes(v) + Seq::<u8>::empty() =~= data@);
                        }
                    }
                }
                Err(Error::IpcProtocol("malformed envelope".to_owned()))
            },
        }
    }
}

} // verus!
