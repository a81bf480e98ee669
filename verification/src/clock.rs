use vstd::prelude::*;

verus! {

/// Relies on chrono's `Utc::now`: the current instant, carried as
/// microseconds since the Unix epoch. Nothing is promised of the value;
/// it comes from the machine's clock.
#[verifier::external_body]
pub(crate) fn now_micros() -> i64 {
    chrono::Utc::now().timestamp_micros()
}

} // verus!
