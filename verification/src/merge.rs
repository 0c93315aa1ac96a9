//! The merge rule: what becomes of two free fruits that touch.

use crate::fruits::Fruit;
use crate::intent::EntityHandle;
use vstd::prelude::*;

verus! {

/// A freely simulated fruit: a body and the tier it is tagged with.
#[derive(Clone, Copy, Debug, PartialEq, Eq, Structural)]
pub struct FreeFruit {
    pub tier: Fruit,
    pub entity: EntityHandle,
}

/// A merge that is due: `first` and `second` leave the game, and one fruit
/// of tier `promoted` appears where `first` stood.
#[derive(Clone, Copy, Debug, PartialEq, Eq, Structural)]
pub struct Merge {
    pub first: EntityHandle,
    pub second: EntityHandle,
    pub promoted: Fruit,
}

/// The merge rule. Two fruits of one tier that has a successor merge into
/// that successor; fruits of different tiers, and two fruits of the last
/// tier, stay as they are.
pub open spec fn spec_resolve(first: FreeFruit, second: FreeFruit) -> Option<Merge> {
    match first.tier.spec_promote(second.tier) {
        Some(promoted) => Some(Merge { first: first.entity, second: second.entity, promoted }),
        None => None,
    }
}

/// Decides whether the touching pair `first`, `second` merges, and into
/// what. The new fruit takes the place of `first`, so the order of the
/// pair matters.
pub fn resolve(first: FreeFruit, second: FreeFruit) -> (merge: Option<Merge>)
    ensures
        merge == spec_resolve(first, second),
{
    match first.tier.promote(&second.tier) {
        Some(promoted) => Some(Merge { first: first.entity, second: second.entity, promoted }),
        None => None,
    }
}

/// Two fruits of the same tier, other than the last, merge: both are named
/// for despawn, and exactly one fruit of the next tier is to appear, at the
/// first one's place.
pub proof fn lemma_equal_tiers_merge(first: FreeFruit, second: FreeFruit)
    requires
        first.tier == second.tier,
        first.tier != Fruit::Watermelon,
    ensures
        first.tier.spec_successor() is Some,
        spec_resolve(first, second) == Some(
            Merge {
                first: first.entity,
                second: second.entity,
                promoted: first.tier.spec_successor().unwrap(),
            },
        ),
{
}

/// Two fruits of the last tier do not merge.
pub proof fn lemma_last_tier_stays(first: FreeFruit, second: FreeFruit)
    requires
        first.tier == Fruit::Watermelon,
        second.tier == Fruit::Watermelon,
    ensures
        spec_resolve(first, second) is None,
{
}

/// Two fruits of different tiers do not merge.
pub proof fn lemma_unequal_tiers_stay(first: FreeFruit, second: FreeFruit)
    requires
        first.tier != second.tier,
    ensures
        spec_resolve(first, second) is None,
{
}

} // verus!
