use bevy::ecs::entity::{Entity, EntityMap};
use bevy::ecs::world::World;
use bevy::hierarchy::{BuildWorldChildren, Children, Parent};
use netsync::entity::EntityRef;
use netsync::network_entity_map::{MapError, NetworkEntityMap};
use netsync::parent_sync::{parent_sync_system, ParentSync, PushChildren};

fn to_ref(entity: Entity) -> EntityRef {
    EntityRef::from_bits(entity.to_bits())
}

fn to_entity(entity: EntityRef) -> Entity {
    Entity::from_bits(entity.to_bits())
}

#[test]
fn entity_mapping() {
    let mut world = World::new();
    world.spawn_empty();

    let mut other_world = World::new();
    let parent = other_world.spawn_empty().id();
    let child = other_world.spawn_empty().id();
    let mut parent_sync = ParentSync(to_ref(parent));

    let mut entity_map = EntityMap::default();
    let spawned_parent = world.spawn_empty().id();
    let spawned_child = world.spawn_empty().id();
    entity_map.insert(parent, spawned_parent);
    entity_map.insert(child, spawned_child);
    parent_sync.map_entities(&entity_map).unwrap();

    for command in parent_sync_system(&vec![(to_ref(spawned_child), parent_sync)]) {
        world.entity_mut(to_entity(command.parent)).push_children(&[to_entity(command.child)]);
    }

    let child_parent = world.get::<Parent>(spawned_child).unwrap();
    assert_eq!(to_ref(child_parent.get()), parent_sync.0);
    assert_eq!(child_parent.get(), spawned_parent);
    assert_eq!(&**world.get::<Children>(spawned_parent).unwrap(), &[spawned_child]);
}

#[test]
fn default_parent_is_the_placeholder() {
    let parent = ParentSync::from_world();
    assert!(parent.is_placeholder());
    assert_eq!(parent.0, EntityRef::from_raw(u32::MAX));
    assert_eq!(to_entity(parent.0), Entity::PLACEHOLDER);
    assert!(!ParentSync(EntityRef::from_raw(0)).is_placeholder());
}

#[test]
fn unknown_parent_is_reported_and_kept() {
    let mut entity_map = EntityMap::default();
    entity_map.insert(Entity::from_raw(1), Entity::from_raw(2));
    let mut parent_sync = ParentSync(EntityRef::from_raw(2));
    assert_eq!(
        parent_sync.map_entities(&entity_map),
        Err(MapError::EntityNotFound(EntityRef::from_raw(2)))
    );
    assert_eq!(parent_sync, ParentSync(EntityRef::from_raw(2)));
}

#[test]
fn parent_is_mapped_to_the_clients_reference() {
    let mut map = NetworkEntityMap::new();
    map.insert(EntityRef::from_raw(40), EntityRef::from_raw(4));
    let mut parent_sync = ParentSync(EntityRef::from_raw(40));
    assert_eq!(parent_sync.map_entities(map.server_to_client()), Ok(()));
    assert_eq!(parent_sync, ParentSync(EntityRef::from_raw(4)));
    assert_eq!(parent_sync.map_entities(map.client_to_server()), Ok(()));
    assert_eq!(parent_sync, ParentSync(EntityRef::from_raw(40)));
}

#[test]
fn one_action_for_each_changed_reference_in_order() {
    let changed = vec![
        (EntityRef::from_raw(1), ParentSync(EntityRef::from_raw(9))),
        (EntityRef::from_raw(2), ParentSync(EntityRef::from_raw(9))),
        (EntityRef::from_raw(3), ParentSync(EntityRef::from_raw(1))),
    ];
    assert_eq!(
        parent_sync_system(&changed),
        vec![
            PushChildren { parent: EntityRef::from_raw(9), child: EntityRef::from_raw(1) },
            PushChildren { parent: EntityRef::from_raw(9), child: EntityRef::from_raw(2) },
            PushChildren { parent: EntityRef::from_raw(1), child: EntityRef::from_raw(3) },
        ]
    );
}

#[test]
fn no_change_no_action() {
    assert!(parent_sync_system(&Vec::new()).is_empty());
}

#[test]
fn parent_created_in_the_same_tick_is_already_there() {
    let mut world = World::new();
    let child = world.spawn_empty().id();

    // world synchronisation creates the parent in this tick
    let parent = world.spawn_empty().id();
    let changed = vec![(to_ref(child), ParentSync(to_ref(parent)))];

    // reconciliation runs afterwards, in the same tick
    for command in parent_sync_system(&changed) {
        assert!(world.get_entity(to_entity(command.parent)).is_some());
        world.entity_mut(to_entity(command.parent)).push_children(&[to_entity(command.child)]);
    }
    assert_eq!(world.get::<Parent>(child).unwrap().get(), parent);
}
