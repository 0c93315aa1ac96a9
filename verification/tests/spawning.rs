use bevy_water_melon::fruits::Fruit;
use bevy_water_melon::intent::{Intent, Position};
use bevy_water_melon::spawn::{
    spawn_position, steer, ControllableFruit, Controls, SpawnController, SpawnEvent, SpawnPhase,
    SPAWN_INTERVAL_NANOS, SPAWN_X, SPAWN_Y,
};

const IDLE: Controls = Controls { move_left: false, move_right: false, drop: false };
const LEFT: Controls = Controls { move_left: true, move_right: false, drop: false };
const RIGHT: Controls = Controls { move_left: false, move_right: true, drop: false };
const BOTH: Controls = Controls { move_left: true, move_right: true, drop: false };
const DROP: Controls = Controls { move_left: false, move_right: false, drop: true };

fn held(x: i32) -> SpawnController {
    SpawnController {
        phase: SpawnPhase::Controllable(ControllableFruit {
            tier: Fruit::Grape,
            entity: 42,
            position: Position { x, y: 300 },
        }),
        spawn_tier: Fruit::Grape,
    }
}

#[test]
fn new_controller_counts_down_the_full_interval() {
    let controller = SpawnController::new(Fruit::Grape);
    assert_eq!(SPAWN_INTERVAL_NANOS, 1_000_000_000);
    assert_eq!(controller.phase, SpawnPhase::CountingDown(1_000_000_000));
    assert_eq!(controller.spawn_tier, Fruit::Grape);
}

#[test]
fn spawn_position_is_fixed() {
    assert_eq!(SPAWN_X, 0);
    assert_eq!(SPAWN_Y, 300);
    assert_eq!(spawn_position(), Position { x: 0, y: 300 });
}

#[test]
fn tick_decrements_the_countdown() {
    let mut controller = SpawnController::new(Fruit::Grape);
    assert_eq!(controller.tick(16_000_000), vec![]);
    assert_eq!(controller.phase, SpawnPhase::CountingDown(984_000_000));
    assert_eq!(controller.tick(0), vec![]);
    assert_eq!(controller.phase, SpawnPhase::CountingDown(984_000_000));
    assert_eq!(controller.tick(983_999_999), vec![]);
    assert_eq!(controller.phase, SpawnPhase::CountingDown(1));
}

#[test]
fn tick_that_reaches_zero_asks_for_a_fruit() {
    let mut controller = SpawnController::new(Fruit::Grape);
    controller.tick(400_000_000);
    let intents = controller.tick(600_000_000);
    assert_eq!(
        intents,
        vec![Intent::SpawnControllable { tier: Fruit::Grape, position: Position { x: 0, y: 300 } }]
    );
    assert_eq!(controller.phase, SpawnPhase::Empty);
}

#[test]
fn tick_that_overshoots_asks_for_a_fruit() {
    let mut controller = SpawnController::new(Fruit::Cherry);
    let intents = controller.tick(u64::MAX);
    assert_eq!(
        intents,
        vec![Intent::SpawnControllable {
            tier: Fruit::Cherry,
            position: Position { x: 0, y: 300 }
        }]
    );
    assert_eq!(controller.phase, SpawnPhase::Empty);
}

#[test]
fn spawn_request_is_made_once() {
    let mut controller = SpawnController::new(Fruit::Grape);
    assert_eq!(controller.tick(1_000_000_000).len(), 1);
    assert_eq!(controller.tick(1_000_000_000), vec![]);
    assert_eq!(controller.tick(0), vec![]);
    assert_eq!(controller.phase, SpawnPhase::Empty);
}

#[test]
fn tick_leaves_a_held_fruit_alone() {
    let mut controller = held(5);
    assert_eq!(controller.tick(5_000_000_000), vec![]);
    assert_eq!(controller, held(5));
}

#[test]
fn install_takes_the_reported_fruit() {
    let mut controller = SpawnController::new(Fruit::Grape);
    controller.tick(1_000_000_000);
    let fruit =
        ControllableFruit { tier: Fruit::Grape, entity: 42, position: Position { x: 0, y: 300 } };
    assert!(controller.install(fruit));
    assert_eq!(controller.phase, SpawnPhase::Controllable(fruit));
}

#[test]
fn install_is_refused_outside_a_spawn_request() {
    let fruit =
        ControllableFruit { tier: Fruit::Grape, entity: 43, position: Position { x: 0, y: 300 } };
    let mut counting = SpawnController::new(Fruit::Grape);
    assert!(!counting.install(fruit));
    assert_eq!(counting, SpawnController::new(Fruit::Grape));
    let mut holding = held(0);
    assert!(!holding.install(fruit));
    assert_eq!(holding, held(0));
}

#[test]
fn steering_moves_one_unit_per_tick() {
    let mut controller = held(0);
    assert_eq!(
        controller.apply_controls(LEFT),
        vec![Intent::SetPosition { entity: 42, position: Position { x: -1, y: 300 } }]
    );
    assert_eq!(controller, held(-1));
    assert_eq!(
        controller.apply_controls(RIGHT),
        vec![Intent::SetPosition { entity: 42, position: Position { x: 0, y: 300 } }]
    );
    assert_eq!(
        controller.apply_controls(RIGHT),
        vec![Intent::SetPosition { entity: 42, position: Position { x: 1, y: 300 } }]
    );
    assert_eq!(controller, held(1));
}

#[test]
fn steering_never_moves_the_fruit_vertically() {
    let mut controller = held(0);
    for _ in 0..10 {
        controller.apply_controls(LEFT);
    }
    assert_eq!(controller, held(-10));
}

#[test]
fn idle_and_opposed_signals_leave_the_fruit_in_place() {
    let mut controller = held(7);
    assert_eq!(controller.apply_controls(IDLE), vec![]);
    assert_eq!(controller, held(7));
    assert_eq!(controller.apply_controls(BOTH), vec![]);
    assert_eq!(controller, held(7));
}

#[test]
fn steer_adds_a_step_for_each_pressed_direction() {
    assert_eq!(steer(10, LEFT), 9);
    assert_eq!(steer(10, RIGHT), 11);
    assert_eq!(steer(10, BOTH), 10);
    assert_eq!(steer(10, IDLE), 10);
    assert_eq!(steer(10, DROP), 10);
}

#[test]
fn steer_stops_at_the_ends_of_the_range() {
    assert_eq!(steer(i32::MAX, RIGHT), i32::MAX);
    assert_eq!(steer(i32::MIN, LEFT), i32::MIN);
    assert_eq!(steer(i32::MAX, LEFT), i32::MAX - 1);
    assert_eq!(steer(i32::MIN, RIGHT), i32::MIN + 1);
    let mut controller = held(i32::MAX);
    assert_eq!(controller.apply_controls(RIGHT), vec![]);
    assert_eq!(controller, held(i32::MAX));
}

#[test]
fn drop_releases_the_fruit_and_restarts_the_countdown() {
    let mut controller = held(3);
    let intents = controller.apply_controls(DROP);
    assert_eq!(
        intents,
        vec![Intent::Release {
            entity: 42,
            tier: Fruit::Grape,
            position: Position { x: 3, y: 300 }
        }]
    );
    assert_eq!(controller.phase, SpawnPhase::CountingDown(SPAWN_INTERVAL_NANOS));
    assert_eq!(controller.spawn_tier, Fruit::Grape);
}

#[test]
fn drop_comes_after_the_move_of_the_same_tick() {
    let mut controller = held(3);
    let intents =
        controller.apply_controls(Controls { move_left: true, move_right: false, drop: true });
    assert_eq!(
        intents,
        vec![
            Intent::SetPosition { entity: 42, position: Position { x: 2, y: 300 } },
            Intent::Release { entity: 42, tier: Fruit::Grape, position: Position { x: 2, y: 300 } },
        ]
    );
    assert_eq!(controller.phase, SpawnPhase::CountingDown(1_000_000_000));
}

#[test]
fn drop_without_a_fruit_changes_nothing() {
    let mut counting =
        SpawnController { phase: SpawnPhase::CountingDown(123), spawn_tier: Fruit::Grape };
    assert_eq!(counting.apply_controls(DROP), vec![]);
    assert_eq!(
        counting,
        SpawnController { phase: SpawnPhase::CountingDown(123), spawn_tier: Fruit::Grape }
    );
    let mut empty = SpawnController { phase: SpawnPhase::Empty, spawn_tier: Fruit::Grape };
    assert_eq!(
        empty.apply_controls(Controls { move_left: true, move_right: false, drop: true }),
        vec![]
    );
    assert_eq!(empty, SpawnController { phase: SpawnPhase::Empty, spawn_tier: Fruit::Grape });
}

#[test]
fn held_drop_key_releases_once_per_fruit() {
    let mut controller = held(0);
    assert_eq!(controller.apply_controls(DROP).len(), 1);
    assert_eq!(controller.apply_controls(DROP), vec![]);
    assert_eq!(controller.apply_controls(DROP), vec![]);
    assert_eq!(controller.phase, SpawnPhase::CountingDown(SPAWN_INTERVAL_NANOS));
}

#[test]
fn step_does_what_the_named_calls_do() {
    let fruit =
        ControllableFruit { tier: Fruit::Grape, entity: 9, position: Position { x: 0, y: 300 } };
    let mut stepped = SpawnController::new(Fruit::Grape);
    let mut called = SpawnController::new(Fruit::Grape);
    assert_eq!(stepped.step(SpawnEvent::Tick(1_000_000_000)), called.tick(1_000_000_000));
    assert_eq!(stepped, called);
    assert_eq!(stepped.step(SpawnEvent::Spawned(fruit)), vec![]);
    called.install(fruit);
    assert_eq!(stepped, called);
    assert_eq!(stepped.step(SpawnEvent::Input(RIGHT)), called.apply_controls(RIGHT));
    assert_eq!(stepped, called);
    assert_eq!(stepped.step(SpawnEvent::Input(DROP)), called.apply_controls(DROP));
    assert_eq!(stepped, called);
    assert_eq!(stepped.phase, SpawnPhase::CountingDown(SPAWN_INTERVAL_NANOS));
}

#[test]
fn at_most_one_steerable_fruit_through_a_long_run() {
    let mut controller = SpawnController::new(Fruit::Grape);
    let mut alive: i64 = 0;
    let mut next_entity: u64 = 100;
    let held_drop = Controls { move_left: true, move_right: false, drop: true };
    for round in 0..2000u64 {
        let event = match round % 7 {
            0 | 1 | 2 => SpawnEvent::Tick(300_000_000),
            3 => SpawnEvent::Input(held_drop),
            4 => SpawnEvent::Spawned(ControllableFruit {
                tier: Fruit::Grape,
                entity: next_entity,
                position: Position { x: 0, y: 300 },
            }),
            5 => SpawnEvent::Input(RIGHT),
            _ => SpawnEvent::Tick(700_000_000),
        };
        for intent in controller.step(event) {
            match intent {
                Intent::SpawnControllable { .. } => {
                    alive += 1;
                    next_entity += 1;
                }
                Intent::Release { .. } => alive -= 1,
                _ => {}
            }
        }
        assert!(alive == 0 || alive == 1);
        let expected = match controller.phase {
            SpawnPhase::CountingDown(_) => 0,
            _ => 1,
        };
        assert_eq!(alive, expected);
    }
}

#[test]
fn full_cycle_from_countdown_to_release() {
    let mut controller = SpawnController::new(Fruit::Grape);
    let mut intents = controller.tick(1_000_000_000);
    assert_eq!(intents.len(), 1);
    let (tier, position) = match intents.remove(0) {
        Intent::SpawnControllable { tier, position } => (tier, position),
        other => panic!("unexpected request {:?}", other),
    };
    assert!(controller.install(ControllableFruit { tier, entity: 5, position }));
    controller.apply_controls(RIGHT);
    controller.apply_controls(RIGHT);
    let released = controller.apply_controls(DROP);
    assert_eq!(
        released,
        vec![Intent::Release {
            entity: 5,
            tier: Fruit::Grape,
            position: Position { x: 2, y: 300 }
        }]
    );
    assert_eq!(controller, SpawnController::new(Fruit::Grape));
}
