//! The message router: what becomes of an envelope that arrived.
//!
//! An envelope addressed to the coordinator is interpreted here; any other
//! is forwarded to the connection registered for its target. The router
//! decides and encodes; the caller queues the frame on the handle it is
//! given. It never changes the registry.

use crate::clock::now_millis;
use crate::error::Error;
use crate::ipc::{
    lemma_decode_inverts_encode, payload_bytes, reported_size, spec_decode, spec_encode,
    EnvelopeView, IpcEnvelope, IpcMessage, MessageView, ProcessId,
};
use crate::wire::lemma_pong_fits;
use crate::registry::{ClientRegistry, Entry};
use vstd::prelude::*;

verus! {

/// What a sibling asks of the supervisor.
#[derive(Debug, Clone, Copy, PartialEq, Eq, Structural)]
pub enum AppCommand {
    TogglePetVisibility,
    OpenManager,
    OpenSettings,
    QuitApp,
}

/// Why an envelope was not delivered.
#[derive(Debug, Clone, Copy, PartialEq, Eq, Structural)]
pub enum DropReason {
    /// No connection is registered for the identity.
    Unreachable(ProcessId),
    /// The payload is longer than a frame may carry; the number is its
    /// length as an error reports it.
    TooLarge(u32),
}

/// What the router decided.
pub enum Routed<'a, W> {
    /// Queue `frame` on `handle`, the connection registered for `to`.
    Deliver { handle: &'a W, to: ProcessId, frame: Vec<u8> },
    /// Hand the request to the supervisor.
    Command(AppCommand),
    /// The identity announced itself; nothing to do.
    Ready(ProcessId),
    /// Addressed to the coordinator, which has no use for it.
    Unhandled,
    /// Nothing is sent.
    Dropped(DropReason),
}

/// What a [`Routed`] holds, as mathematical values.
pub ghost enum RoutedView<W> {
    Deliver { handle: W, to: ProcessId, frame: Seq<u8> },
    Command(AppCommand),
    Ready(ProcessId),
    Unhandled,
    Dropped(DropReason),
}

impl<'a, W> View for Routed<'a, W> {
    type V = RoutedView<W>;

    open spec fn view(&self) -> RoutedView<W> {
        match *self {
            Routed::Deliver { handle, to, frame } => RoutedView::Deliver {
                handle: *handle,
                to,
                frame: frame@,
            },
            Routed::Command(c) => RoutedView::Command(c),
            Routed::Ready(id) => RoutedView::Ready(id),
            Routed::Unhandled => RoutedView::Unhandled,
            Routed::Dropped(r) => RoutedView::Dropped(r),
        }
    }
}

/// Forwarding: the frame of the envelope goes to the connection registered
/// for its target; without one, or with a payload too long, it is dropped.
pub open spec fn spec_deliver<W>(reg: Map<ProcessId, Entry<W>>, e: EnvelopeView) -> RoutedView<W> {
    if !reg.contains_key(e.target) {
        RoutedView::Dropped(DropReason::Unreachable(e.target))
    } else {
        match spec_encode(e) {
            Some(frame) => RoutedView::Deliver { handle: reg[e.target].handle, to: e.target, frame },
            None => RoutedView::Dropped(
                DropReason::TooLarge(reported_size(payload_bytes(e).len())),
            ),
        }
    }
}

/// The answer to a ping from `to`, made at time `now`.
pub open spec fn pong_for(to: ProcessId, now: i64) -> EnvelopeView {
    EnvelopeView {
        source: ProcessId::App,
        target: to,
        payload: MessageView::Pong,
        timestamp: now,
    }
}

/// What the coordinator does with an envelope addressed to itself.
pub open spec fn spec_local<W>(
    reg: Map<ProcessId, Entry<W>>,
    e: EnvelopeView,
    now: i64,
) -> RoutedView<W> {
    match e.payload {
        MessageView::Ping => spec_deliver(reg, pong_for(e.source, now)),
        MessageView::ProcessReady => RoutedView::Ready(e.source),
        MessageView::TogglePetVisibility => RoutedView::Command(AppCommand::TogglePetVisibility),
        MessageView::OpenManager => RoutedView::Command(AppCommand::OpenManager),
        MessageView::OpenSettings => RoutedView::Command(AppCommand::OpenSettings),
        MessageView::QuitApp => RoutedView::Command(AppCommand::QuitApp),
        _ => RoutedView::Unhandled,
    }
}

/// What becomes of an envelope that arrived at time `now`.
pub open spec fn spec_route<W>(
    reg: Map<ProcessId, Entry<W>>,
    e: EnvelopeView,
    now: i64,
) -> RoutedView<W> {
    if e.target == ProcessId::App {
        spec_local(reg, e, now)
    } else {
        spec_deliver(reg, e)
    }
}

/// Unreachable target: an envelope for a sibling without a registry entry
/// is dropped, whatever it carries and whenever it comes.
pub proof fn lemma_unreachable_target_dropped<W>(
    reg: Map<ProcessId, Entry<W>>,
    e: EnvelopeView,
    now: i64,
)
    requires
        e.target != ProcessId::App,
        !reg.contains_key(e.target),
    ensures
        spec_route(reg, e, now) == RoutedView::<W>::Dropped(DropReason::Unreachable(e.target)),
{
}

/// A delivery always goes to the handle registered for the identity it
/// names, and that identity is the envelope's target or, for a ping, its
/// source.
pub proof fn lemma_delivery_goes_to_registered<W>(
    reg: Map<ProcessId, Entry<W>>,
    e: EnvelopeView,
    now: i64,
)
    ensures
        spec_route(reg, e, now) matches RoutedView::Deliver { handle, to, frame } ==> {
            &&& reg.contains_key(to)
            &&& handle == reg[to].handle
            &&& to == if e.target == ProcessId::App {
                e.source
            } else {
                e.target
            }
        },
{
}

/// Routing between two clients: an envelope for a registered sibling, short
/// enough for a frame, goes to that sibling's connection and to no other,
/// and what arrives there decodes to the very envelope that was sent.
pub proof fn lemma_forward_preserves_envelope<W>(
    reg: Map<ProcessId, Entry<W>>,
    e: EnvelopeView,
    now: i64,
)
    requires
        e.target != ProcessId::App,
        reg.contains_key(e.target),
        spec_encode(e) is Some,
    ensures
        spec_route(reg, e, now) == (RoutedView::Deliver {
            handle: reg[e.target].handle,
            to: e.target,
            frame: spec_encode(e)->0,
        }),
        spec_decode(spec_encode(e)->0.skip(4)) == Some(e),
{
    lemma_decode_inverts_encode(e);
}

/// Liveness ping: a ping to the coordinator from a registered identity is
/// answered on that identity's connection, and what arrives there decodes to
/// a pong from the coordinator to the identity.
pub proof fn lemma_ping_gets_pong<W>(reg: Map<ProcessId, Entry<W>>, e: EnvelopeView, now: i64)
    requires
        e.target == ProcessId::App,
        e.payload is Ping,
        reg.contains_key(e.source),
    ensures
        spec_encode(pong_for(e.source, now)) is Some,
        spec_route(reg, e, now) == (RoutedView::Deliver {
            handle: reg[e.source].handle,
            to: e.source,
            frame: spec_encode(pong_for(e.source, now))->0,
        }),
        spec_decode(spec_encode(pong_for(e.source, now))->0.skip(4)) == Some(
            pong_for(e.source, now),
        ),
{
    lemma_pong_fits(e.source, now);
    lemma_decode_inverts_encode(pong_for(e.source, now));
}

/// Routes envelopes between the connections of a registry.
pub struct MessageRouter {}

impl MessageRouter {
    pub fn new() -> (r: Self) {
        MessageRouter {  }
    }

    /// Forwards an envelope to the connection registered for its target.
    pub fn deliver<'a, W>(registry: &'a ClientRegistry<W>, envelope: &IpcEnvelope) -> (r: Routed<
        'a,
        W,
    >)
        ensures
            r@ == spec_deliver(registry@, envelope@),
    {
        match registry.lookup(envelope.target) {
            None => Routed::Dropped(DropReason::Unreachable(envelope.target)),
            Some(handle) => match envelope.encode() {
                Ok(frame) => Routed::Deliver { handle, to: envelope.target, frame },
                Err(e) => match e {
                    Error::IpcMessageTooLarge(n) => Routed::Dropped(DropReason::TooLarge(n)),
                    _ => Routed::Dropped(DropReason::TooLarge(0)),
                },
            },
        }
    }

    /// Routes an envelope that arrived at time `now`.
    pub fn route_at<'a, W>(
        &self,
        registry: &'a ClientRegistry<W>,
        envelope: &IpcEnvelope,
        now: i64,
    ) -> (r: Routed<'a, W>)
        ensures
            r@ == spec_route(registry@, envelope@, now),
    {
        if envelope.target != ProcessId::App {
            return Self::deliver(registry, envelope);
        }
        match &envelope.payload {
            IpcMessage::Ping => {
                let pong = IpcEnvelope::with_timestamp(
                    ProcessId::App,
                    envelope.source,
                    IpcMessage::Pong,
                    now,
                );
                Self::deliver(registry, &pong)
            },
            IpcMessage::ProcessReady => Routed::Ready(envelope.source),
            IpcMessage::TogglePetVisibility => Routed::Command(AppCommand::TogglePetVisibility),
            IpcMessage::OpenManager => Routed::Command(AppCommand::OpenManager),
            IpcMessage::OpenSettings => Routed::Command(AppCommand::OpenSettings),
            IpcMessage::QuitApp => Routed::Command(AppCommand::QuitApp),
            _ => Routed::Unhandled,
        }
    }

    /// Routes an envelope that arrived now.
    pub fn route<'a, W>(&self, registry: &'a ClientRegistry<W>, envelope: &IpcEnvelope) -> (r:
        Routed<'a, W>)
        ensures
            exists|now: i64| r@ == spec_route(registry@, envelope@, now),
    {
        let now: i64 = now_millis();
        self.route_at(registry, envelope, now)
    }

    /// Sends `payload` from the coordinator to `target`, stamped `now`.
    pub fn send_at<'a, W>(
        registry: &'a ClientRegistry<W>,
        target: ProcessId,
        payload: IpcMessage,
        now: i64,
    ) -> (r: Routed<'a, W>)
        ensures
            r@ == spec_deliver(
                registry@,
                EnvelopeView {
                    source: ProcessId::App,
                    target,
                    payload: payload@,
                    timestamp: now,
                },
            ),
    {
        let envelope = IpcEnvelope::with_timestamp(ProcessId::App, target, payload, now);
        Self::deliver(registry, &envelope)
    }

    /// Sends `payload` from the coordinator to `target`, stamped with the
    /// current time.
    pub fn send_to<'a, W>(registry: &'a ClientRegistry<W>, target: ProcessId, payload: IpcMessage) -> (r:
        Routed<'a, W>)
        ensures
            exists|now: i64|
                r@ == spec_deliver(
                    registry@,
                    EnvelopeView {
                        source: ProcessId::App,
                        target,
                        payload: payload@,
                        timestamp: now,
                    },
                ),
    {
        let now: i64 = now_millis();
        Self::send_at(registry, target, payload, now)
    }
}

} // verus!
