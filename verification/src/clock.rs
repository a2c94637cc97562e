//! The wall clock.

use vstd::prelude::*;

verus! {

/// `jiff::Timestamp::now()` followed by `Timestamp::as_millisecond`: the
/// current time in whole milliseconds since the Unix epoch. Nothing is
/// claimed of the value: it differs from call to call.
#[verifier::external_body]
pub(crate) fn now_millis() -> i64 {
    jiff::Timestamp::now().as_millisecond()
}

} // verus!
