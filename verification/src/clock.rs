//! The wall clock. Timestamps only ride along inside transactions and
//! blocks; no property of the system depends on their values.

use vstd::prelude::*;

verus! {

/// Relies on `std::time::SystemTime::now` and `duration_since(UNIX_EPOCH)`:
/// the whole seconds since the Unix epoch, or zero on a clock that reads
/// before the epoch. The value depends on the environment, so nothing is
/// assumed of it.
#[verifier::external_body]
pub(crate) fn unix_now() -> usize {
    std::time::SystemTime::now()
        .duration_since(std::time::UNIX_EPOCH)
        .map(|d| d.as_secs() as usize)
        .unwrap_or(0)
}

} // verus!
