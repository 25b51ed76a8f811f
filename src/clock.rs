use vstd::prelude::*;

verus! {

/// Relies on `std::time::SystemTime::now`: the wall-clock time in microseconds
/// since the Unix epoch (zero for a clock set before the epoch). Nothing is
/// promised of the value.
#[verifier::external_body]
pub(crate) fn wall_clock_micros() -> u64 {
    std::time::SystemTime::now()
        .duration_since(std::time::UNIX_EPOCH)
        .map(|d| d.as_micros() as u64)
        .unwrap_or(0)
}

} // verus!
