//! The randomized election timeout. Randomization is mandatory: it breaks
//! split-vote symmetry, since followers with one fixed timeout would all time
//! out together and tie election after election.

use vstd::prelude::*;

use rand::Rng;

verus! {

/// Relies on rand::Rng::gen_range, called on rand::thread_rng(): it returns a
/// value drawn uniformly from the given half-open range, here `0..150`, and
/// panics only on an empty range.
#[verifier::external_body]
fn random_jitter_millis() -> (r: u64)
    ensures
        r < 150,
{
    rand::thread_rng().gen_range(0..150)
}

/// A fresh randomized election timeout in milliseconds, drawn uniformly from
/// the half-open interval [150, 300). Drawn once per timer loop, not per
/// tick.
pub fn election_timeout() -> (r: u64)
    ensures
        150 <= r < 300,
{
    150 + random_jitter_millis()
}

} // verus!
