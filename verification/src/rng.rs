//! The tracer's one source of randomness.

use rand::Rng;
use vstd::prelude::*;

verus! {

/// Relies on `rand::Rng::gen_range` over an inclusive integer range: the
/// sample lies between the bounds.  Nothing more is promised of it, and two
/// calls with equal bounds may differ.
#[verifier::external_body]
pub(crate) fn random_raw(lo: i64, hi: i64) -> (r: i64)
    requires
        lo <= hi,
    ensures
        lo <= r <= hi,
{
    rand::thread_rng().gen_range(lo..=hi)
}

} // verus!
