//! The read side of one connection of the transport server.
//!
//! The transport reads a header of four bytes, then the payload that the
//! header declares, and hands each to the connection. The connection says
//! how to go on, registers the identity that the first registration
//! announcement names, and removes that registration when the read side
//! ends.

use crate::ipc::{
    frame_len, le_value, spec_decode, EnvelopeView, IpcEnvelope, IpcMessage, MessageView,
    ProcessId, MAX_MESSAGE_SIZE,
};
use crate::registry::{after_register, after_unregister, ClientRegistry, Entry};
use vstd::prelude::*;

verus! {

/// Envelopes that the inbound queue holds at most.
pub const INCOMING_QUEUE_CAPACITY: usize = 256;

/// Frames that the outbound queue of one connection holds at most.
pub const OUTBOUND_QUEUE_CAPACITY: usize = 64;

/// How the read side goes on after a header.
#[derive(Debug, Clone, Copy, PartialEq, Eq, Structural)]
pub enum ReadStep {
    /// Read a payload of this many bytes.
    Payload(usize),
    /// The declared length is above the maximum: close the connection.
    Close,
}

/// The read side of a connection: its number, its write handle until it is
/// handed to the registry, and the identity it registered.
pub struct Connection<W> {
    id: u64,
    handle: Option<W>,
    registered: Option<ProcessId>,
}

/// Whether an envelope makes a connection in this state register: it is a
/// registration announcement, and the connection has registered nothing yet.
pub open spec fn registers(registered: Option<ProcessId>, e: EnvelopeView) -> bool {
    e.payload is ProcessReady && registered is None
}

impl<W> Connection<W> {
    /// The number of the connection.
    pub closed spec fn conn(&self) -> u64 {
        self.id
    }

    /// The write handle, until the connection has registered.
    pub closed spec fn pending(&self) -> Option<W> {
        self.handle
    }

    /// The identity that the connection registered.
    pub closed spec fn identity(&self) -> Option<ProcessId> {
        self.registered
    }

    /// A connection that has registered nothing yet.
    pub fn new(id: u64, handle: W) -> (r: Self)
        ensures
            r.conn() == id,
            r.pending() == Some(handle),
            r.identity() is None,
    {
        Connection { id, handle: Some(handle), registered: None }
    }

    /// The identity that the connection registered.
    pub fn registered_id(&self) -> (r: Option<ProcessId>)
        ensures
            r == self.identity(),
    {
        self.registered
    }

    /// What to do after a header: read the payload it declares, or close
    /// where it declares more than [`MAX_MESSAGE_SIZE`].
    pub fn on_header(header: &[u8; 4]) -> (r: ReadStep)
        ensures
            r == if le_value(header@) > MAX_MESSAGE_SIZE {
                ReadStep::Close
            } else {
                ReadStep::Payload(le_value(header@) as usize)
            },
    {
        match frame_len(header) {
            Ok(n) => ReadStep::Payload(n),
            Err(_) => ReadStep::Close,
        }
    }

    /// Takes a payload. Bytes that are no envelope are passed over: nothing
    /// changes and nothing is returned. An envelope is returned for the
    /// inbound queue; if it is the connection's first registration
    /// announcement, its source is registered on this connection.
    pub fn on_payload(&mut self, registry: &mut ClientRegistry<W>, payload: &[u8]) -> (r: Option<
        IpcEnvelope,
    >)
        ensures
            final(self).conn() == old(self).conn(),
            match spec_decode(payload@) {
                None => r is None && *final(self) == *old(self) && final(registry)@ == old(
                    registry,
                )@,
                Some(e) => {
                    &&& r matches Some(got)
                    &&& got@ == e
                    &&& if registers(old(self).identity(), e) && old(self).pending() is Some {
                        &&& final(self).identity() == Some(e.source)
                        &&& final(self).pending() is None
                        &&& final(registry)@ == after_register(
                            old(registry)@,
                            e.source,
                            Entry { conn: old(self).conn(), handle: old(self).pending()->0 },
                        )
                    } else {
                        &&& *final(self) == *old(self)
                        &&& final(registry)@ == old(registry)@
                    }
                },
            },
    {
        let envelope = match IpcEnvelope::decode(payload) {
            Ok(e) => e,
            Err(_) => {
                return None;
            },
        };
        let announces: bool = match &envelope.payload {
            IpcMessage::ProcessReady => true,
            _ => false,
        };
        if announces && self.registered.is_none() && self.handle.is_some() {
            match self.handle.take() {
                Some(handle) => {
                    registry.register(envelope.source, self.id, handle);
                    self.registered = Some(envelope.source);
                },
                None => {},
            }
        }
        Some(envelope)
    }

    /// Ends the read side: the identity that this connection registered
    /// leaves the registry, unless another connection has taken it over.
    pub fn on_close(&mut self, registry: &mut ClientRegistry<W>)
        ensures
            final(self).conn() == old(self).conn(),
            final(self).identity() is None,
            final(self).pending() == old(self).pending(),
            final(registry)@ == match old(self).identity() {
                Some(id) => after_unregister(old(registry)@, id, old(self).conn()),
                None => old(registry)@,
            },
    {
        match self.registered {
            Some(id) => {
                let _ = registry.unregister(id, self.id);
                self.registered = None;
            },
            None => {},
        }
    }
}

} // verus!
