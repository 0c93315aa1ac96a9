use bevy_water_melon::fruits::Fruit;
use bevy_water_melon::lifecycle::EntityLifecycleGuard;
use bevy_water_melon::merge::{resolve, FreeFruit, Merge};

fn fruit(tier: Fruit, entity: u64) -> FreeFruit {
    FreeFruit { tier, entity }
}

#[test]
fn equal_tiers_merge_into_the_successor() {
    let merge = resolve(fruit(Fruit::Cherry, 10), fruit(Fruit::Cherry, 20));
    assert_eq!(merge, Some(Merge { first: 10, second: 20, promoted: Fruit::Strawberry }));
    let merge = resolve(fruit(Fruit::Melon, 1), fruit(Fruit::Melon, 2));
    assert_eq!(merge, Some(Merge { first: 1, second: 2, promoted: Fruit::Watermelon }));
}

#[test]
fn merge_keeps_the_order_of_the_pair() {
    let merge = resolve(fruit(Fruit::Pear, 20), fruit(Fruit::Pear, 10));
    assert_eq!(merge, Some(Merge { first: 20, second: 10, promoted: Fruit::Peach }));
}

#[test]
fn last_tier_does_not_merge() {
    assert_eq!(resolve(fruit(Fruit::Watermelon, 1), fruit(Fruit::Watermelon, 2)), None);
}

#[test]
fn unequal_tiers_do_not_merge() {
    assert_eq!(resolve(fruit(Fruit::Cherry, 1), fruit(Fruit::Strawberry, 2)), None);
    assert_eq!(resolve(fruit(Fruit::Strawberry, 1), fruit(Fruit::Cherry, 2)), None);
    assert_eq!(resolve(fruit(Fruit::Melon, 1), fruit(Fruit::Watermelon, 2)), None);
}

#[test]
fn guard_starts_empty() {
    let guard = EntityLifecycleGuard::new();
    assert_eq!(guard.tier_of(0), None);
    assert_eq!(guard.tier_of(1), None);
}

#[test]
fn guard_tracks_and_resolves_tiers() {
    let mut guard = EntityLifecycleGuard::new();
    guard.track(7, Fruit::Apple);
    guard.track(8, Fruit::Pear);
    assert_eq!(guard.tier_of(7), Some(Fruit::Apple));
    assert_eq!(guard.tier_of(8), Some(Fruit::Pear));
    assert_eq!(guard.tier_of(9), None);
}

#[test]
fn guard_track_replaces_an_earlier_tag() {
    let mut guard = EntityLifecycleGuard::new();
    guard.track(7, Fruit::Apple);
    guard.track(7, Fruit::Peach);
    assert_eq!(guard.tier_of(7), Some(Fruit::Peach));
}

#[test]
fn despawn_is_due_once() {
    let mut guard = EntityLifecycleGuard::new();
    guard.track(7, Fruit::Apple);
    guard.track(8, Fruit::Pear);
    assert!(guard.despawn(7));
    assert_eq!(guard.tier_of(7), None);
    assert!(!guard.despawn(7));
    assert_eq!(guard.tier_of(7), None);
    assert_eq!(guard.tier_of(8), Some(Fruit::Pear));
}

#[test]
fn despawn_of_an_untracked_handle_changes_nothing() {
    let mut guard = EntityLifecycleGuard::new();
    guard.track(8, Fruit::Pear);
    assert!(!guard.despawn(99));
    assert_eq!(guard.tier_of(8), Some(Fruit::Pear));
}
