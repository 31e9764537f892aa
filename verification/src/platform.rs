//! Calls into the system clock and the random number generator.
//!
//! Nothing here is proved: each item names the outside function that it
//! calls and states only what holds of every outcome.
use vstd::prelude::*;

verus! {

/// The monotonic clock reading of `std::time::Instant`; opaque to proofs.
#[verifier::external_type_specification]
#[verifier::external_body]
pub struct ExInstant(std::time::Instant);

/// Reads the clock with `std::time::Instant::now`. Nothing is stated of
/// the reading: it depends on the time.
#[verifier::external_body]
pub(crate) fn instant_now() -> (now: std::time::Instant) {
    std::time::Instant::now()
}

/// The time passed since `since`, through `std::time::Instant::elapsed`.
/// Nothing is stated of it: it depends on the time.
#[verifier::external_body]
pub(crate) fn instant_elapsed(since: &std::time::Instant) -> (d: std::time::Duration) {
    since.elapsed()
}

/// The whole nanoseconds of a duration, through
/// `std::time::Duration::as_nanos`. Verus sees nothing inside a
/// `Duration`, so no clause ties the result to it.
#[verifier::external_body]
pub(crate) fn duration_as_nanos(d: &std::time::Duration) -> (n: u128) {
    d.as_nanos()
}

/// The text that `Debug` gives for a string: the string in double quotes
/// with its special characters escaped. A function of the string alone.
pub uninterp spec fn str_debug(s: Seq<char>) -> Seq<char>;

/// The `Debug` rendering of a string, through `format!("{:?}", s)`; the
/// contract names the result `str_debug` of the string and says no more.
#[verifier::external_body]
pub(crate) fn debug_quote(s: &str) -> (r: String)
    ensures
        r@ == str_debug(s@),
{
    format!("{:?}", s)
}

/// A number drawn uniformly from `lo..hi` by `rand::random_range`, which
/// panics on an empty range (hence the `requires`). The draw depends on
/// chance, so the contract says only that it lies in the range.
#[verifier::external_body]
pub(crate) fn random_in_range(lo: u64, hi: u64) -> (r: u64)
    requires
        lo < hi,
    ensures
        lo <= r < hi,
{
    rand::random_range(lo..hi)
}

} // verus!
