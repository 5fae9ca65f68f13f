use vstd::prelude::*;
use rand::Rng;
use rand::distributions::{IndependentSample, Weighted, WeightedChoice};

verus! {

/// Sum of a list of weights.
pub open spec fn total_weight(weights: Seq<u32>) -> int
    decreases weights.len(),
{
    if weights.len() == 0 {
        0
    } else {
        total_weight(weights.drop_last()) + weights.last()
    }
}

/// `rand::Rng::gen_range` on `rand::thread_rng()`: some integer of the
/// half-open range from `low` to `high`. The call panics unless
/// `low < high`. Nothing is claimed about which member of the range is
/// drawn.
#[verifier::external_body]
pub(crate) fn random_range(low: i32, high: i32) -> (n: i32)
    requires
        low < high,
    ensures
        low <= n < high,
{
    rand::thread_rng().gen_range(low, high)
}

/// `rand::random::<bool>()`: a coin flip, of which nothing is claimed.
#[verifier::external_body]
pub(crate) fn random_bool() -> bool {
    rand::random()
}

/// `rand::distributions::WeightedChoice::ind_sample` over the indices of
/// `weights`: the index drawn is in range and its weight is not zero.
/// `WeightedChoice::new` panics on an empty list, on a total weight of
/// zero, and on a total that does not fit in a `u32`. Nothing is claimed
/// about which of the eligible indices is drawn.
#[verifier::external_body]
pub(crate) fn weighted_index(weights: &Vec<u32>) -> (index: usize)
    requires
        weights@.len() > 0,
        0 < total_weight(weights@) <= u32::MAX,
    ensures
        index < weights@.len(),
        weights@[index as int] > 0,
{
    let mut items: Vec<Weighted<usize>> = weights
        .iter()
        .enumerate()
        .map(|(index, weight)| Weighted { weight: *weight, item: index })
        .collect();
    WeightedChoice::new(&mut items).ind_sample(&mut rand::thread_rng())
}

} // verus!
