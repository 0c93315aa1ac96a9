//! The tier tags of the freely simulated fruits, and the guard that lets
//! each of them be despawned once and no more.

use crate::fruits::Fruit;
use crate::intent::EntityHandle;
use std::collections::HashMap;
use vstd::prelude::*;

verus! {

broadcast use vstd::std_specs::hash::group_hash_axioms;

/// Which tier each live free fruit has. A handle that is not in the map is
/// no fruit to the core: a wall, or a body that is already gone.
#[derive(Debug)]
pub struct EntityLifecycleGuard {
    tags: HashMap<EntityHandle, Fruit>,
}

impl View for EntityLifecycleGuard {
    type V = Map<EntityHandle, Fruit>;

    closed spec fn view(&self) -> Map<EntityHandle, Fruit> {
        self.tags@
    }
}

impl EntityLifecycleGuard {
    /// A guard that tracks no fruit.
    pub fn new() -> (guard: Self)
        ensures
            guard@ == Map::<EntityHandle, Fruit>::empty(),
    {
        EntityLifecycleGuard { tags: HashMap::new() }
    }

    /// Records that the body `entity` is a free fruit of `tier`. A tag that
    /// the handle had before is replaced.
    pub fn track(&mut self, entity: EntityHandle, tier: Fruit)
        ensures
            final(self)@ == old(self)@.insert(entity, tier),
    {
        self.tags.insert(entity, tier);
    }

    /// The tier of the free fruit `entity`, or `None` where the handle is
    /// not tracked.
    pub fn tier_of(&self, entity: EntityHandle) -> (tier: Option<Fruit>)
        ensures
            tier == (if self@.contains_key(entity) {
                Some(self@[entity])
            } else {
                None
            }),
    {
        match self.tags.get(&entity) {
            Some(tier) => Some(*tier),
            None => None,
        }
    }

    /// Takes the fruit `entity` out of the game. Returns whether a despawn
    /// is due: `true` the first time, `false` for a handle that is not
    /// tracked, which leaves the guard as it was.
    pub fn despawn(&mut self, entity: EntityHandle) -> (due: bool)
        ensures
            due == old(self)@.contains_key(entity),
            final(self)@ == old(self)@.remove(entity),
    {
        self.tags.remove(&entity).is_some()
    }
}

/// Despawning is idempotent. Once a handle has been despawned it is not
/// tracked, so a second request for it is not due and changes nothing; the
/// same holds of a handle that was never tracked.
pub proof fn lemma_despawn_is_idempotent(tags: Map<EntityHandle, Fruit>, entity: EntityHandle)
    ensures
        !tags.remove(entity).contains_key(entity),
        tags.remove(entity).remove(entity) == tags.remove(entity),
        !tags.contains_key(entity) ==> tags.remove(entity) == tags,
{
    assert(tags.remove(entity).remove(entity) =~= tags.remove(entity));
    if !tags.contains_key(entity) {
        assert(tags.remove(entity) =~= tags);
    }
}

} // verus!
