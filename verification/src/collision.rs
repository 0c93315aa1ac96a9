//! The collision batch processor: one tick's collision reports, taken in
//! the order in which they arrived and turned into despawns and spawns.

use crate::fruits::Fruit;
use crate::intent::{EntityHandle, Intent};
use crate::lifecycle::EntityLifecycleGuard;
use crate::merge::{resolve, spec_resolve, FreeFruit, Merge};
use std::collections::HashSet;
use vstd::prelude::*;

verus! {

broadcast use vstd::std_specs::hash::group_hash_axioms;

/// Whether two bodies began or ceased to touch.
#[derive(Clone, Copy, Debug, PartialEq, Eq, Structural)]
pub enum CollisionKind {
    Started,
    Stopped,
}

/// One collision report of the physics step.
#[derive(Clone, Copy, Debug, PartialEq, Eq, Structural)]
pub struct CollisionEvent {
    pub a: EntityHandle,
    pub b: EntityHandle,
    pub kind: CollisionKind,
}

/// What a batch has come to after some of its events: the tags of the
/// fruits still in the game, the fruits consumed so far, the pairs that
/// were put to the merge rule, and the requests issued.
pub struct Batch {
    pub tags: Map<EntityHandle, Fruit>,
    pub consumed: Set<EntityHandle>,
    pub candidates: Seq<(FreeFruit, FreeFruit)>,
    pub intents: Seq<Intent>,
}

/// The pair that `event` puts to the merge rule, if any. Only a report
/// that two bodies began to touch counts, and only where neither body was
/// consumed earlier in the batch and both are tagged fruits.
pub open spec fn spec_candidate(
    tags: Map<EntityHandle, Fruit>,
    consumed: Set<EntityHandle>,
    event: CollisionEvent,
) -> Option<(FreeFruit, FreeFruit)> {
    if event.kind == CollisionKind::Started && !consumed.contains(event.a) && !consumed.contains(
        event.b,
    ) && tags.contains_key(event.a) && tags.contains_key(event.b) {
        Some(
            (
                FreeFruit { tier: tags[event.a], entity: event.a },
                FreeFruit { tier: tags[event.b], entity: event.b },
            ),
        )
    } else {
        None
    }
}

/// The requests that carry out `merge`: each of the two fruits is
/// despawned once, then the promoted fruit is spawned where the first one
/// stood. Where both handles name one body there is one despawn only.
pub open spec fn spec_merge_intents(merge: Merge) -> Seq<Intent> {
    let spawn = Intent::SpawnPromoted { tier: merge.promoted, anchor: merge.first };
    if merge.first == merge.second {
        seq![Intent::Despawn { entity: merge.first }, spawn]
    } else {
        seq![
            Intent::Despawn { entity: merge.first },
            Intent::Despawn { entity: merge.second },
            spawn,
        ]
    }
}

/// The batch after one more event.
pub open spec fn spec_absorb(batch: Batch, event: CollisionEvent) -> Batch {
    match spec_candidate(batch.tags, batch.consumed, event) {
        None => batch,
        Some(pair) => {
            let candidates = batch.candidates.push(pair);
            match spec_resolve(pair.0, pair.1) {
                None => Batch { candidates, ..batch },
                Some(merge) => Batch {
                    tags: batch.tags.remove(merge.first).remove(merge.second),
                    consumed: batch.consumed.insert(merge.first).insert(merge.second),
                    candidates,
                    intents: batch.intents + spec_merge_intents(merge),
                },
            }
        },
    }
}

/// The batch after all of `events`, taken in order from the tags `tags`
/// with nothing consumed. An earlier event wins over a later one that
/// shares a fruit with it.
pub open spec fn spec_process(tags: Map<EntityHandle, Fruit>, events: Seq<CollisionEvent>) -> Batch
    decreases events.len(),
{
    if events.len() == 0 {
        Batch { tags, consumed: Set::empty(), candidates: Seq::empty(), intents: Seq::empty() }
    } else {
        spec_absorb(spec_process(tags, events.drop_last()), events.last())
    }
}

/// What came of one batch: the requests to carry out, in order; the pairs
/// that were put to the merge rule; and the fruits that the batch consumed.
#[derive(Debug)]
pub struct BatchOutcome {
    pub intents: Vec<Intent>,
    pub candidates: Vec<(FreeFruit, FreeFruit)>,
    pub consumed: HashSet<EntityHandle>,
}

/// The pair that `event` puts to the merge rule, given the live tags and
/// the fruits consumed so far in the batch.
pub fn candidate(
    guard: &EntityLifecycleGuard,
    consumed: &HashSet<EntityHandle>,
    event: CollisionEvent,
) -> (pair: Option<(FreeFruit, FreeFruit)>)
    ensures
        pair == spec_candidate(guard@, consumed@, event),
{
    if event.kind != CollisionKind::Started {
        return None;
    }
    if consumed.contains(&event.a) || consumed.contains(&event.b) {
        return None;
    }
    match (guard.tier_of(event.a), guard.tier_of(event.b)) {
        (Some(tier_a), Some(tier_b)) => Some(
            (
                FreeFruit { tier: tier_a, entity: event.a },
                FreeFruit { tier: tier_b, entity: event.b },
            ),
        ),
        _ => None,
    }
}

/// Processes the collision reports of one tick. The events are taken in
/// the order given; each pair of tagged, not yet consumed fruits is put to
/// the merge rule, and a merge takes both fruits out of `guard` at once,
/// so that no later event of the batch can use them again.
pub fn process_batch(guard: &mut EntityLifecycleGuard, events: &Vec<CollisionEvent>) -> (outcome:
    BatchOutcome)
    ensures
        final(guard)@ == spec_process(old(guard)@, events@).tags,
        outcome.intents@ == spec_process(old(guard)@, events@).intents,
        outcome.candidates@ == spec_process(old(guard)@, events@).candidates,
        outcome.consumed@ == spec_process(old(guard)@, events@).consumed,
{
    let ghost tags = guard@;
    let mut intents: Vec<Intent> = Vec::new();
    let mut candidates: Vec<(FreeFruit, FreeFruit)> = Vec::new();
    let mut consumed: HashSet<EntityHandle> = HashSet::new();
    let mut i: usize = 0;
    while i < events.len()
        invariant
            i <= events.len(),
            guard@ == spec_process(tags, events@.take(i as int)).tags,
            intents@ == spec_process(tags, events@.take(i as int)).intents,
            candidates@ == spec_process(tags, events@.take(i as int)).candidates,
            consumed@ == spec_process(tags, events@.take(i as int)).consumed,
        decreases events.len() - i,
    {
        let event = events[i];
        proof {
            assert(events@.take(i + 1).drop_last() == events@.take(i as int));
            assert(events@.take(i + 1).last() == event);
        }
        if let Some(pair) = candidate(guard, &consumed, event) {
            candidates.push(pair);
            if let Some(merge) = resolve(pair.0, pair.1) {
                consumed.insert(merge.first);
                consumed.insert(merge.second);
                if guard.despawn(merge.first) {
                    intents.push(Intent::Despawn { entity: merge.first });
                }
                if guard.despawn(merge.second) {
                    intents.push(Intent::Despawn { entity: merge.second });
                }
                intents.push(Intent::SpawnPromoted { tier: merge.promoted, anchor: merge.first });
            }
        }
        i += 1;
    }
    proof {
        assert(events@.take(events.len() as int) == events@);
    }
    BatchOutcome { intents, candidates, consumed }
}

/// The report that `a` and `b` began to touch.
pub open spec fn spec_started(a: EntityHandle, b: EntityHandle) -> CollisionEvent {
    CollisionEvent { a, b, kind: CollisionKind::Started }
}

/// Two fruits of one tier, other than the last, that begin to touch merge:
/// exactly the two are despawned, exactly one fruit of the next tier is
/// spawned, where the first one stood, and their tags are gone.
pub proof fn lemma_equal_pair_merges(
    tags: Map<EntityHandle, Fruit>,
    a: EntityHandle,
    b: EntityHandle,
)
    requires
        tags.contains_key(a),
        tags.contains_key(b),
        a != b,
        tags[a] == tags[b],
        tags[a] != Fruit::Watermelon,
    ensures
        tags[a].spec_successor() is Some,
        spec_process(tags, seq![spec_started(a, b)]).intents == seq![
            Intent::Despawn { entity: a },
            Intent::Despawn { entity: b },
            Intent::SpawnPromoted { tier: tags[a].spec_successor().unwrap(), anchor: a },
        ],
        spec_process(tags, seq![spec_started(a, b)]).tags == tags.remove(a).remove(b),
        spec_process(tags, seq![spec_started(a, b)]).consumed == set![a, b],
{
    lemma_single_event(tags, spec_started(a, b));
}

/// Two fruits of the last tier that begin to touch stay as they are:
/// nothing is despawned and nothing is spawned.
pub proof fn lemma_last_tier_pair_stays(
    tags: Map<EntityHandle, Fruit>,
    a: EntityHandle,
    b: EntityHandle,
)
    requires
        tags.contains_key(a),
        tags.contains_key(b),
        tags[a] == Fruit::Watermelon,
        tags[b] == Fruit::Watermelon,
    ensures
        spec_process(tags, seq![spec_started(a, b)]).intents == Seq::<Intent>::empty(),
        spec_process(tags, seq![spec_started(a, b)]).tags == tags,
        spec_process(tags, seq![spec_started(a, b)]).consumed == Set::<EntityHandle>::empty(),
{
    lemma_single_event(tags, spec_started(a, b));
}

/// Two fruits of different tiers that begin to touch stay as they are:
/// nothing is despawned and nothing is spawned.
pub proof fn lemma_unequal_pair_stays(
    tags: Map<EntityHandle, Fruit>,
    a: EntityHandle,
    b: EntityHandle,
)
    requires
        tags.contains_key(a),
        tags.contains_key(b),
        tags[a] != tags[b],
    ensures
        spec_process(tags, seq![spec_started(a, b)]).intents == Seq::<Intent>::empty(),
        spec_process(tags, seq![spec_started(a, b)]).tags == tags,
        spec_process(tags, seq![spec_started(a, b)]).consumed == Set::<EntityHandle>::empty(),
{
    lemma_single_event(tags, spec_started(a, b));
}

/// A body that is no tagged fruit, such as a wall, merges with nothing.
pub proof fn lemma_untracked_pair_stays(
    tags: Map<EntityHandle, Fruit>,
    a: EntityHandle,
    b: EntityHandle,
)
    requires
        !tags.contains_key(a) || !tags.contains_key(b),
    ensures
        spec_process(tags, seq![spec_started(a, b)]).intents == Seq::<Intent>::empty(),
        spec_process(tags, seq![spec_started(a, b)]).tags == tags,
        spec_process(tags, seq![spec_started(a, b)]).candidates == Seq::<
            (FreeFruit, FreeFruit),
        >::empty(),
{
    lemma_single_event(tags, spec_started(a, b));
}

/// A report that two bodies ceased to touch changes nothing.
pub proof fn lemma_stopped_changes_nothing(batch: Batch, a: EntityHandle, b: EntityHandle)
    ensures
        spec_absorb(batch, (CollisionEvent { a, b, kind: CollisionKind::Stopped })) == batch,
{
}

/// A report that names a fruit consumed earlier in the batch changes
/// nothing, whatever the other body is.
pub proof fn lemma_consumed_fruit_is_skipped(batch: Batch, event: CollisionEvent)
    requires
        batch.consumed.contains(event.a) || batch.consumed.contains(event.b),
    ensures
        spec_absorb(batch, event) == batch,
{
}

/// The first pair wins. Where a fruit touches two others of its tier in
/// one batch, it merges with the one reported first; the report that comes
/// second finds it consumed and changes nothing, so the third fruit stays.
pub proof fn lemma_first_pair_wins(
    tags: Map<EntityHandle, Fruit>,
    a: EntityHandle,
    b: EntityHandle,
    c: EntityHandle,
)
    requires
        tags.contains_key(a),
        tags.contains_key(b),
        tags.contains_key(c),
        a != b,
        a != c,
        b != c,
        tags[a] == tags[b],
        tags[a] == tags[c],
        tags[a] != Fruit::Watermelon,
    ensures
        spec_process(tags, seq![spec_started(a, b), spec_started(a, c)]) == spec_process(
            tags,
            seq![spec_started(a, b)],
        ),
        spec_process(tags, seq![spec_started(a, b), spec_started(a, c)]).tags.contains_key(c),
        spec_process(tags, seq![spec_started(a, b), spec_started(a, c)]).tags[c] == tags[c],
{
    let first = seq![spec_started(a, b)];
    let both = seq![spec_started(a, b), spec_started(a, c)];
    lemma_equal_pair_merges(tags, a, b);
    assert(both.drop_last() == first);
}

/// No fruit is despawned twice in one batch, and none that is not in the
/// game. In every batch the consumed fruits are tagged fruits of the start;
/// each of them is despawned by exactly one request, and nothing else is;
/// their tags, and no others, are gone at the end; and every fruit that is
/// spawned is the successor of a consumed fruit and takes its place.
pub proof fn lemma_each_fruit_despawned_once(
    tags: Map<EntityHandle, Fruit>,
    events: Seq<CollisionEvent>,
)
    ensures
        spec_process(tags, events).consumed.subset_of(tags.dom()),
        spec_process(tags, events).tags == tags.remove_keys(spec_process(tags, events).consumed),
        forall|entity: EntityHandle|
            spec_process(tags, events).consumed.contains(entity) <==> spec_process(
                tags,
                events,
            ).intents.contains(Intent::Despawn { entity }),
        forall|i: int, j: int|
            0 <= i < j < spec_process(tags, events).intents.len() && spec_process(
                tags,
                events,
            ).intents[i] is Despawn ==> spec_process(tags, events).intents[i] != spec_process(
                tags,
                events,
            ).intents[j],
        forall|i: int|
            0 <= i < spec_process(tags, events).intents.len() ==> match #[trigger] spec_process(
                tags,
                events,
            ).intents[i] {
                Intent::Despawn { entity } => true,
                Intent::SpawnPromoted { tier, anchor } => spec_process(
                    tags,
                    events,
                ).consumed.contains(anchor) && tags[anchor].spec_successor() == Some(tier),
                _ => false,
            },
    decreases events.len(),
{
    if events.len() > 0 {
        let before = spec_process(tags, events.drop_last());
        let after = spec_process(tags, events);
        lemma_each_fruit_despawned_once(tags, events.drop_last());
        assert(after == spec_absorb(before, events.last()));
        if let Some(pair) = spec_candidate(before.tags, before.consumed, events.last()) {
            if let Some(merge) = spec_resolve(pair.0, pair.1) {
                // Both fruits were live, so neither had been consumed, and
                // the requests of this merge follow all the earlier ones.
                let old_len = before.intents.len() as int;
                assert(after.intents == before.intents + spec_merge_intents(merge));
                assert(after.tags =~= tags.remove_keys(after.consumed));
                assert forall|entity: EntityHandle|
                    after.consumed.contains(entity) <==> after.intents.contains(
                        Intent::Despawn { entity },
                    ) by {
                    let wanted = Intent::Despawn { entity };
                    if before.consumed.contains(entity) {
                        let i = choose|i: int|
                            0 <= i < before.intents.len() && before.intents[i] == wanted;
                        assert(after.intents[i] == wanted);
                    }
                    if entity == merge.first {
                        assert(after.intents[old_len] == wanted);
                    }
                    if entity == merge.second && merge.second != merge.first {
                        assert(after.intents[old_len + 1] == wanted);
                    }
                    if after.intents.contains(wanted) {
                        let i = choose|i: int|
                            0 <= i < after.intents.len() && after.intents[i] == wanted;
                        if i < old_len {
                            assert(before.intents[i] == wanted);
                        }
                    }
                }
                assert forall|i: int, j: int|
                    0 <= i < j < after.intents.len()
                        && after.intents[i] is Despawn implies after.intents[i]
                    != after.intents[j] by {
                    if i < old_len && j >= old_len {
                        assert(before.intents.contains(before.intents[i]));
                    }
                }
            }
        }
    }
}

/// Only live fruits are put to the merge rule. Every pair of candidates
/// holds two handles that were tagged at the start of the batch, each with
/// the tier it was tagged with.
pub proof fn lemma_candidates_are_tagged_fruits(
    tags: Map<EntityHandle, Fruit>,
    events: Seq<CollisionEvent>,
)
    ensures
        forall|i: int|
            0 <= i < spec_process(tags, events).candidates.len() ==> {
                let pair = #[trigger] spec_process(tags, events).candidates[i];
                &&& tags.contains_key(pair.0.entity)
                &&& tags.contains_key(pair.1.entity)
                &&& pair.0.tier == tags[pair.0.entity]
                &&& pair.1.tier == tags[pair.1.entity]
            },
    decreases events.len(),
{
    if events.len() > 0 {
        let before = spec_process(tags, events.drop_last());
        lemma_candidates_are_tagged_fruits(tags, events.drop_last());
        lemma_each_fruit_despawned_once(tags, events.drop_last());
        assert(spec_process(tags, events) == spec_absorb(before, events.last()));
    }
}

/// A batch of one event is that event absorbed by the untouched start.
proof fn lemma_single_event(tags: Map<EntityHandle, Fruit>, event: CollisionEvent)
    ensures
        spec_process(tags, seq![event]) == spec_absorb(
            Batch {
                tags,
                consumed: Set::empty(),
                candidates: Seq::empty(),
                intents: Seq::empty(),
            },
            event,
        ),
{
    let events = seq![event];
    assert(events.drop_last() == Seq::<CollisionEvent>::empty());
    reveal_with_fuel(spec_process, 2);
}

} // verus!
