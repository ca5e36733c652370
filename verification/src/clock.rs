//! The one place the library reads the wall clock.

use vstd::prelude::*;

verus! {

/// Relies on chrono's `Utc::now`: the wall clock read at the moment of the
/// call, in milliseconds since the epoch. Nothing is assumed of its value.
#[verifier::external_body]
pub(crate) fn now_millis() -> (r: i64) {
    chrono::Utc::now().timestamp_millis()
}

} // verus!
