//! The one clock read the handlers make.

use vstd::prelude::*;

verus! {

/// Relies on chrono's `Utc::now` and `DateTime::timestamp_micros`: the
/// current time as microseconds since the Unix epoch. Nothing is assumed
/// of the value.
#[verifier::external_body]
pub(crate) fn current_micros() -> i64 {
    chrono::Utc::now().timestamp_micros()
}

} // verus!
