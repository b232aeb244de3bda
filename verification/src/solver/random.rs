use rand::rngs::SmallRng;
use rand::seq::IndexedRandom;
use rand::Rng;
use vstd::prelude::*;

verus! {

/// The random generator of the search, `rand::rngs::SmallRng`.
#[verifier::external_type_specification]
#[verifier::external_body]
pub struct ExSmallRng(SmallRng);

/// `rand::Rng::random_range` on `low..high`: a number drawn from that range.
/// The contract states only that the number lies in the range; which one
/// comes out depends on the state of the generator. `rand` panics on an
/// empty range, which the precondition leaves out.
#[verifier::external_body]
pub(crate) fn random_range(rng: &mut SmallRng, low: usize, high: usize) -> (r: usize)
    requires
        low < high,
    ensures
        low <= r < high,
{
    rng.random_range(low..high)
}

/// `rand::Rng::random_ratio`: `true` with probability
/// `numerator / denominator`. The contract states only the two certain
/// cases: never `true` for a numerator of zero, always for a numerator equal
/// to the denominator. `rand` panics when the ratio exceeds one or the
/// denominator is zero, which the precondition leaves out.
#[verifier::external_body]
pub(crate) fn random_ratio(rng: &mut SmallRng, numerator: u32, denominator: u32) -> (r: bool)
    requires
        0 < denominator,
        numerator <= denominator,
    ensures
        numerator == 0 ==> !r,
        numerator == denominator ==> r,
{
    rng.random_ratio(numerator, denominator)
}

/// `rand::seq::IndexedRandom::choose` on a slice of positions: `None` for an
/// empty slice, else one of its items. Which item comes out depends on the
/// state of the generator, and the contract does not say.
#[verifier::external_body]
pub(crate) fn choose_item(items: &[usize], rng: &mut SmallRng) -> (r: Option<usize>)
    ensures
        items@.len() == 0 <==> r is None,
        r matches Some(v) ==> items@.contains(v),
{
    items.choose(rng).cloned()
}

} // verus!
