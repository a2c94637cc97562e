//! What can go wrong in the coordination core.

use vstd::prelude::*;

verus! {

/// Failure of an operation of this library.
#[derive(Debug)]
pub enum Error {
    /// A payload is longer than a frame may carry; the number is the
    /// payload's length in bytes, or `u32::MAX` where it is longer than that.
    IpcMessageTooLarge(u32),
    /// Bytes that are no envelope.
    IpcProtocol(String),
    /// A sibling process could not be started.
    Spawn(String),
}

} // verus!
