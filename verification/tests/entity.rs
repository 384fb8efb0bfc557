use bevy::ecs::entity::Entity;
use netsync::entity::{EntityRef, PLACEHOLDER_INDEX};

#[test]
fn from_raw_has_generation_zero() {
    let entity = EntityRef::from_raw(17);
    assert_eq!(entity.index(), 17);
    assert_eq!(entity.generation(), 0);
    assert_eq!(entity.to_bits(), 17);
}

#[test]
fn bits_hold_index_and_generation() {
    let entity = EntityRef::from_bits((3 << 32) | 9);
    assert_eq!(entity.index(), 9);
    assert_eq!(entity.generation(), 3);
    assert_eq!(entity.to_bits(), 0x0000_0003_0000_0009);
}

#[test]
fn largest_parts_survive() {
    let entity = EntityRef::from_bits(u64::MAX);
    assert_eq!(entity.index(), u32::MAX);
    assert_eq!(entity.generation(), u32::MAX);
}

#[test]
fn placeholder_has_the_largest_index() {
    let placeholder = EntityRef::new_placeholder();
    assert_eq!(PLACEHOLDER_INDEX, u32::MAX);
    assert_eq!(placeholder.index(), u32::MAX);
    assert_eq!(placeholder.generation(), 0);
    assert_eq!(placeholder, EntityRef::from_raw(u32::MAX));
}

#[test]
fn bits_agree_with_the_engine() {
    let engine = Entity::from_raw(1234);
    let ours = EntityRef::from_raw(1234);
    assert_eq!(ours.to_bits(), engine.to_bits());
    assert_eq!(ours.index(), engine.index());
    assert_eq!(ours.generation(), engine.generation());
    let there = Entity::from_bits(0x0000_0005_0000_0007);
    let here = EntityRef::from_bits(0x0000_0005_0000_0007);
    assert_eq!(here.index(), there.index());
    assert_eq!(here.generation(), there.generation());
    assert_eq!(EntityRef::new_placeholder().to_bits(), Entity::PLACEHOLDER.to_bits());
}

#[test]
fn equal_bits_are_equal_references() {
    assert_eq!(EntityRef::from_raw(5), EntityRef::from_bits(5));
    assert_ne!(EntityRef::from_raw(5), EntityRef::from_bits((1 << 32) | 5));
}
