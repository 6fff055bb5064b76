//! The one clock read the library makes. Nothing is promised of the value:
//! every caller must hold for every reading.

use vstd::prelude::*;

verus! {

/// Relies on `chrono::Utc::now`, which reads the system clock (and itself
/// panics on a clock set before the Unix epoch), and on
/// `chrono::DateTime::timestamp`, which renders the reading as whole
/// non-leap seconds since that epoch. The wall clock may move freely, so
/// no two readings are related and no bound is stated.
#[verifier::external_body]
pub fn unix_now() -> i64 {
    chrono::Utc::now().timestamp()
}

} // verus!
