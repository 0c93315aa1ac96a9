//! The spawn controller: the countdown to the next steerable fruit, the
//! fruit that the player steers, and its release into the simulation.

use crate::fruits::Fruit;
use crate::intent::{EntityHandle, Intent, Position};
use vstd::prelude::*;

verus! {

/// The time between the release of one steerable fruit and the request for
/// the next, in nanoseconds.
pub const SPAWN_INTERVAL_NANOS: u64 = 1_000_000_000;

/// Where every steerable fruit appears: the horizontal coordinate.
pub const SPAWN_X: i32 = 0;

/// Where every steerable fruit appears: the vertical coordinate.
pub const SPAWN_Y: i32 = 300;

/// The fruit that the player steers.
#[derive(Clone, Copy, Debug, PartialEq, Eq, Structural)]
pub struct ControllableFruit {
    pub tier: Fruit,
    pub entity: EntityHandle,
    pub position: Position,
}

/// Where the controller stands between two fruits.
#[derive(Clone, Copy, Debug, PartialEq, Eq, Structural)]
pub enum SpawnPhase {
    /// No countdown runs and no fruit is held: the request for the next
    /// steerable fruit is out, and its body has not been reported yet.
    Empty,
    /// The countdown to the next fruit runs; so many nanoseconds remain.
    CountingDown(u64),
    /// The player steers this fruit.
    Controllable(ControllableFruit),
}

/// The input signals of one tick. Each is a level, not an edge: a key held
/// down is seen again on every tick.
#[derive(Clone, Copy, Debug, PartialEq, Eq, Structural)]
pub struct Controls {
    pub move_left: bool,
    pub move_right: bool,
    pub drop: bool,
}

/// What can happen to the controller.
#[derive(Clone, Copy, Debug, PartialEq, Eq, Structural)]
pub enum SpawnEvent {
    /// So many nanoseconds have passed.
    Tick(u64),
    /// The input signals were sampled.
    Input(Controls),
    /// The body asked for by a spawn request exists now.
    Spawned(ControllableFruit),
}

/// The timer and the slot of the steerable fruit, as one state machine.
/// `spawn_tier` is the tier of which every steerable fruit is made.
#[derive(Clone, Copy, Debug, PartialEq, Eq, Structural)]
pub struct SpawnController {
    pub phase: SpawnPhase,
    pub spawn_tier: Fruit,
}

/// The place where every steerable fruit appears.
pub open spec fn spec_spawn_position() -> Position {
    Position { x: SPAWN_X, y: SPAWN_Y }
}

/// The horizontal coordinate after one tick of steering: each direction
/// that is pressed moves the fruit one unit its way, and the coordinate
/// stops at the ends of its range.
pub open spec fn spec_steer(x: i32, controls: Controls) -> i32 {
    let right: int = if controls.move_right { 1 } else { 0 };
    let left: int = if controls.move_left { 1 } else { 0 };
    let target = x + right - left;
    if target < i32::MIN {
        i32::MIN
    } else if target > i32::MAX {
        i32::MAX
    } else {
        target as i32
    }
}

/// The place where every steerable fruit appears.
pub fn spawn_position() -> (position: Position)
    ensures
        position == spec_spawn_position(),
{
    Position { x: SPAWN_X, y: SPAWN_Y }
}

impl SpawnController {
    /// The time left on the countdown, or `None` while none runs.
    pub open spec fn spec_remaining(self) -> Option<u64> {
        match self.phase {
            SpawnPhase::CountingDown(remaining) => Some(remaining),
            _ => None,
        }
    }

    /// The steerable fruit, or `None` while there is none.
    pub open spec fn spec_controllable(self) -> Option<ControllableFruit> {
        match self.phase {
            SpawnPhase::Controllable(fruit) => Some(fruit),
            _ => None,
        }
    }

    /// The controller after `elapsed` nanoseconds, with the request it
    /// makes. A countdown that has run out gives way to a request for the
    /// next steerable fruit; outside a countdown time changes nothing.
    pub open spec fn spec_tick(self, elapsed: u64) -> (SpawnController, Seq<Intent>) {
        match self.phase {
            SpawnPhase::CountingDown(remaining) => if elapsed >= remaining {
                (
                    SpawnController { phase: SpawnPhase::Empty, ..self },
                    seq![
                        Intent::SpawnControllable {
                            tier: self.spawn_tier,
                            position: spec_spawn_position(),
                        },
                    ],
                )
            } else {
                (
                    SpawnController {
                        phase: SpawnPhase::CountingDown((remaining - elapsed) as u64),
                        ..self
                    },
                    Seq::empty(),
                )
            },
            _ => (self, Seq::empty()),
        }
    }

    /// The controller after the input signals `controls`, with the requests
    /// it makes. Steering comes before the drop, so a fruit that is moved
    /// and dropped on one tick falls from its new place. Without a
    /// steerable fruit the signals change nothing.
    pub open spec fn spec_apply_controls(self, controls: Controls) -> (
        SpawnController,
        Seq<Intent>,
    ) {
        match self.phase {
            SpawnPhase::Controllable(fruit) => {
                let position = Position {
                    x: spec_steer(fruit.position.x, controls),
                    y: fruit.position.y,
                };
                let moved = if position != fruit.position {
                    seq![Intent::SetPosition { entity: fruit.entity, position }]
                } else {
                    Seq::empty()
                };
                if controls.drop {
                    (
                        SpawnController {
                            phase: SpawnPhase::CountingDown(SPAWN_INTERVAL_NANOS),
                            ..self
                        },
                        moved.push(
                            Intent::Release { entity: fruit.entity, tier: fruit.tier, position },
                        ),
                    )
                } else {
                    (
                        SpawnController {
                            phase: SpawnPhase::Controllable(
                                ControllableFruit { position, ..fruit },
                            ),
                            ..self
                        },
                        moved,
                    )
                }
            },
            _ => (self, Seq::empty()),
        }
    }

    /// The controller after the report that the body of `fruit` exists.
    /// The report is taken only while a spawn request is out.
    pub open spec fn spec_install(self, fruit: ControllableFruit) -> SpawnController {
        match self.phase {
            SpawnPhase::Empty => SpawnController {
                phase: SpawnPhase::Controllable(fruit),
                ..self
            },
            _ => self,
        }
    }

    /// The controller after `event`, with the requests it makes.
    pub open spec fn spec_step(self, event: SpawnEvent) -> (SpawnController, Seq<Intent>) {
        match event {
            SpawnEvent::Tick(elapsed) => self.spec_tick(elapsed),
            SpawnEvent::Input(controls) => self.spec_apply_controls(controls),
            SpawnEvent::Spawned(fruit) => (self.spec_install(fruit), Seq::empty()),
        }
    }

    /// The controller after all of `events`, taken in order, with all the
    /// requests it made on the way.
    pub open spec fn spec_run(self, events: Seq<SpawnEvent>) -> (SpawnController, Seq<Intent>)
        decreases events.len(),
    {
        if events.len() == 0 {
            (self, Seq::empty())
        } else {
            let before = self.spec_run(events.drop_last());
            let after = before.0.spec_step(events.last());
            (after.0, before.1 + after.1)
        }
    }

    /// The number of steerable bodies that are in the world on account of
    /// this controller: one from the spawn request until the release, none
    /// while the countdown runs.
    pub open spec fn spec_bodies(self) -> nat {
        match self.phase {
            SpawnPhase::CountingDown(_) => 0,
            _ => 1,
        }
    }

    /// A controller at the start of a full countdown, which will ask for
    /// steerable fruits of `spawn_tier`.
    pub fn new(spawn_tier: Fruit) -> (controller: Self)
        ensures
            controller == (SpawnController {
                phase: SpawnPhase::CountingDown(SPAWN_INTERVAL_NANOS),
                spawn_tier,
            }),
    {
        SpawnController { phase: SpawnPhase::CountingDown(SPAWN_INTERVAL_NANOS), spawn_tier }
    }

    /// The time left on the countdown, or `None` while none runs.
    pub fn remaining(&self) -> (remaining: Option<u64>)
        ensures
            remaining == self.spec_remaining(),
    {
        match self.phase {
            SpawnPhase::CountingDown(remaining) => Some(remaining),
            _ => None,
        }
    }

    /// The steerable fruit, or `None` while there is none.
    pub fn controllable(&self) -> (fruit: Option<ControllableFruit>)
        ensures
            fruit == self.spec_controllable(),
    {
        match self.phase {
            SpawnPhase::Controllable(fruit) => Some(fruit),
            _ => None,
        }
    }

    /// Lets `elapsed` nanoseconds pass. Returns the spawn request, if the
    /// countdown ran out on this tick.
    pub fn tick(&mut self, elapsed: u64) -> (intents: Vec<Intent>)
        ensures
            *final(self) == old(self).spec_tick(elapsed).0,
            intents@ == old(self).spec_tick(elapsed).1,
    {
        let mut intents: Vec<Intent> = Vec::new();
        if let SpawnPhase::CountingDown(remaining) = self.phase {
            if elapsed >= remaining {
                self.phase = SpawnPhase::Empty;
                intents.push(
                    Intent::SpawnControllable { tier: self.spawn_tier, position: spawn_position() },
                );
            } else {
                self.phase = SpawnPhase::CountingDown(remaining - elapsed);
            }
        }
        intents
    }

    /// Applies the input signals of one tick: steers the fruit, then drops
    /// it if asked. Returns the requests to move and to release the body.
    pub fn apply_controls(&mut self, controls: Controls) -> (intents: Vec<Intent>)
        ensures
            *final(self) == old(self).spec_apply_controls(controls).0,
            intents@ == old(self).spec_apply_controls(controls).1,
    {
        let mut intents: Vec<Intent> = Vec::new();
        if let SpawnPhase::Controllable(fruit) = self.phase {
            let position = Position { x: steer(fruit.position.x, controls), y: fruit.position.y };
            if position != fruit.position {
                intents.push(Intent::SetPosition { entity: fruit.entity, position });
            }
            if controls.drop {
                intents.push(Intent::Release { entity: fruit.entity, tier: fruit.tier, position });
                self.phase = SpawnPhase::CountingDown(SPAWN_INTERVAL_NANOS);
            } else {
                self.phase = SpawnPhase::Controllable(
                    ControllableFruit { tier: fruit.tier, entity: fruit.entity, position },
                );
            }
        }
        intents
    }

    /// Takes the report that the body of `fruit` exists. Returns whether
    /// the report was taken: it is while a spawn request is out, and the
    /// player then steers `fruit`; at any other time nothing changes.
    pub fn install(&mut self, fruit: ControllableFruit) -> (taken: bool)
        ensures
            *final(self) == old(self).spec_install(fruit),
            taken == (old(self).phase == SpawnPhase::Empty),
    {
        if self.phase == SpawnPhase::Empty {
            self.phase = SpawnPhase::Controllable(fruit);
            true
        } else {
            false
        }
    }

    /// Moves the controller by one event and returns the requests to carry
    /// out before the next one.
    pub fn step(&mut self, event: SpawnEvent) -> (intents: Vec<Intent>)
        ensures
            *final(self) == old(self).spec_step(event).0,
            intents@ == old(self).spec_step(event).1,
    {
        match event {
            SpawnEvent::Tick(elapsed) => self.tick(elapsed),
            SpawnEvent::Input(controls) => self.apply_controls(controls),
            SpawnEvent::Spawned(fruit) => {
                self.install(fruit);
                Vec::new()
            },
        }
    }
}

/// The horizontal coordinate `x` after one tick of steering.
pub fn steer(x: i32, controls: Controls) -> (moved: i32)
    ensures
        moved == spec_steer(x, controls),
{
    if controls.move_right && !controls.move_left {
        if x < i32::MAX {
            x + 1
        } else {
            x
        }
    } else if controls.move_left && !controls.move_right {
        if x > i32::MIN {
            x - 1
        } else {
            x
        }
    } else {
        x
    }
}

/// How many of `intents` ask for a steerable body.
pub open spec fn spec_count_spawns(intents: Seq<Intent>) -> nat
    decreases intents.len(),
{
    if intents.len() == 0 {
        0
    } else {
        spec_count_spawns(intents.drop_last()) + if intents.last() is SpawnControllable {
            1nat
        } else {
            0nat
        }
    }
}

/// How many of `intents` release a steerable body.
pub open spec fn spec_count_releases(intents: Seq<Intent>) -> nat
    decreases intents.len(),
{
    if intents.len() == 0 {
        0
    } else {
        spec_count_releases(intents.drop_last()) + if intents.last() is Release {
            1nat
        } else {
            0nat
        }
    }
}

/// At most one steerable fruit exists at any time. From any controller and
/// through any sequence of ticks, inputs and spawn reports, the steerable
/// bodies that were there at the start and those asked for since are, but
/// for the ones released, the one body or none that the controller stands
/// for at the end.
pub proof fn lemma_at_most_one_controllable(start: SpawnController, events: Seq<SpawnEvent>)
    ensures
        start.spec_bodies() + spec_count_spawns(start.spec_run(events).1) == start.spec_run(
            events,
        ).0.spec_bodies() + spec_count_releases(start.spec_run(events).1),
        start.spec_run(events).0.spec_bodies() <= 1,
        start.spec_run(events).0.spec_controllable() is Some ==> start.spec_run(
            events,
        ).0.spec_remaining() is None,
    decreases events.len(),
{
    if events.len() > 0 {
        let before = start.spec_run(events.drop_last());
        let after = before.0.spec_step(events.last());
        lemma_at_most_one_controllable(start, events.drop_last());
        lemma_step_keeps_count(before.0, events.last());
        lemma_counts_add(before.1, after.1);
    }
}

/// One event changes the number of steerable bodies by what it asks for:
/// a spawn request adds one, a release takes one away, and a countdown
/// begins with a release and with nothing else.
pub proof fn lemma_step_keeps_count(controller: SpawnController, event: SpawnEvent)
    ensures
        controller.spec_bodies() + spec_count_spawns(controller.spec_step(event).1)
            == controller.spec_step(event).0.spec_bodies() + spec_count_releases(
            controller.spec_step(event).1,
        ),
        controller.spec_step(event).0.phase is CountingDown && !(controller.phase is CountingDown)
            ==> spec_count_releases(controller.spec_step(event).1) == 1,
        controller.spec_step(event).0.spawn_tier == controller.spawn_tier,
{
    let intents = controller.spec_step(event).1;
    reveal_with_fuel(spec_count_spawns, 3);
    reveal_with_fuel(spec_count_releases, 3);
    if intents.len() == 1 {
        assert(intents.drop_last().len() == 0);
    } else if intents.len() == 2 {
        assert(intents.drop_last().len() == 1);
        assert(intents.drop_last().drop_last().len() == 0);
        assert(intents.drop_last().last() == intents[0]);
    }
}

/// Releasing the steerable fruit sets the countdown to the full interval
/// and leaves the slot empty, whatever else the input signals say; the
/// release of the body is the last request made.
pub proof fn lemma_release_resets(controller: SpawnController, controls: Controls)
    requires
        controller.phase is Controllable,
        controls.drop,
    ensures
        controller.spec_apply_controls(controls).0.spec_remaining() == Some(SPAWN_INTERVAL_NANOS),
        controller.spec_apply_controls(controls).0.spec_controllable() is None,
        controller.spec_apply_controls(controls).1.len() > 0,
        controller.spec_apply_controls(controls).1.last() is Release,
{
}

/// Steering moves the fruit sideways only, and by one unit a tick at most:
/// as long as it is not dropped it stays the same fruit on the same body
/// at the same height.
pub proof fn lemma_steering_is_lateral(controller: SpawnController, controls: Controls)
    requires
        controller.phase is Controllable,
        !controls.drop,
    ensures
        controller.spec_apply_controls(controls).0.phase is Controllable,
        controller.spec_apply_controls(controls).0.spec_controllable().unwrap().tier
            == controller.spec_controllable().unwrap().tier,
        controller.spec_apply_controls(controls).0.spec_controllable().unwrap().entity
            == controller.spec_controllable().unwrap().entity,
        controller.spec_apply_controls(controls).0.spec_controllable().unwrap().position.y
            == controller.spec_controllable().unwrap().position.y,
        -1 <= controller.spec_apply_controls(controls).0.spec_controllable().unwrap().position.x
            - controller.spec_controllable().unwrap().position.x <= 1,
{
}

/// Without a steerable fruit the input signals, the drop among them,
/// change neither the countdown nor the slot, and ask for nothing.
pub proof fn lemma_controls_need_a_fruit(controller: SpawnController, controls: Controls)
    requires
        !(controller.phase is Controllable),
    ensures
        controller.spec_apply_controls(controls).0 == controller,
        controller.spec_apply_controls(controls).1 == Seq::<Intent>::empty(),
{
}

/// Counting through two runs of requests, one after the other, gives the
/// sum of the counts.
proof fn lemma_counts_add(left: Seq<Intent>, right: Seq<Intent>)
    ensures
        spec_count_spawns(left + right) == spec_count_spawns(left) + spec_count_spawns(right),
        spec_count_releases(left + right) == spec_count_releases(left) + spec_count_releases(
            right,
        ),
    decreases right.len(),
{
    if right.len() == 0 {
        assert(left + right == left);
    } else {
        assert((left + right).drop_last() == left + right.drop_last());
        assert((left + right).last() == right.last());
        lemma_counts_add(left, right.drop_last());
    }
}

} // verus!
