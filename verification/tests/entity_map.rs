use bevy::ecs::entity::Entity;
use netsync::entity::EntityRef;
use netsync::network_entity_map::{MapError, NetworkEntityMap};

#[test]
fn insert_then_lookup_both_ways() {
    let mut map = NetworkEntityMap::new();
    let client = EntityRef::from_raw(0);
    let server = EntityRef::from_raw(1);
    map.insert(server, client);
    assert_eq!(map.to_server(client), Ok(server));
    assert_eq!(map.to_client(server), Ok(client));
}

#[test]
fn lookup_in_the_wrong_direction_fails() {
    let mut map = NetworkEntityMap::new();
    let client = EntityRef::from_raw(0);
    let server = EntityRef::from_raw(1);
    map.insert(server, client);
    assert_eq!(map.to_client(client), Err(MapError::EntityNotFound(client)));
    assert_eq!(map.to_server(server), Err(MapError::EntityNotFound(server)));
}

#[test]
fn lookup_in_an_empty_map_fails() {
    let map = NetworkEntityMap::new();
    let entity = EntityRef::from_raw(42);
    assert_eq!(map.to_server(entity), Err(MapError::EntityNotFound(entity)));
    assert_eq!(map.to_client(entity), Err(MapError::EntityNotFound(entity)));
}

#[test]
fn remove_by_client_forgets_both_halves() {
    let mut map = NetworkEntityMap::new();
    let client = EntityRef::from_raw(3);
    let server = EntityRef::from_raw(9);
    map.insert(server, client);
    assert_eq!(map.remove_by_client(client), Some(server));
    assert_eq!(map.to_server(client), Err(MapError::EntityNotFound(client)));
    assert_eq!(map.to_client(server), Err(MapError::EntityNotFound(server)));
}

#[test]
fn remove_by_server_forgets_both_halves() {
    let mut map = NetworkEntityMap::new();
    let client = EntityRef::from_raw(3);
    let server = EntityRef::from_raw(9);
    map.insert(server, client);
    assert_eq!(map.remove_by_server(server), Some(client));
    assert_eq!(map.to_server(client), Err(MapError::EntityNotFound(client)));
    assert_eq!(map.to_client(server), Err(MapError::EntityNotFound(server)));
}

#[test]
fn remove_of_an_unknown_reference_changes_nothing() {
    let mut map = NetworkEntityMap::new();
    let client = EntityRef::from_raw(3);
    let server = EntityRef::from_raw(9);
    map.insert(server, client);
    assert_eq!(map.remove_by_client(server), None);
    assert_eq!(map.remove_by_server(client), None);
    assert_eq!(map.to_server(client), Ok(server));
    assert_eq!(map.to_client(server), Ok(client));
}

#[test]
fn remove_leaves_other_pairs() {
    let mut map = NetworkEntityMap::new();
    map.insert(EntityRef::from_raw(10), EntityRef::from_raw(1));
    map.insert(EntityRef::from_raw(20), EntityRef::from_raw(2));
    assert_eq!(map.remove_by_client(EntityRef::from_raw(1)), Some(EntityRef::from_raw(10)));
    assert_eq!(map.to_server(EntityRef::from_raw(2)), Ok(EntityRef::from_raw(20)));
    assert_eq!(map.to_client(EntityRef::from_raw(20)), Ok(EntityRef::from_raw(2)));
}

#[test]
fn insert_overwrites_the_pair_that_shares_the_client() {
    let mut map = NetworkEntityMap::new();
    let client = EntityRef::from_raw(1);
    let old_server = EntityRef::from_raw(10);
    let new_server = EntityRef::from_raw(11);
    map.insert(old_server, client);
    map.insert(new_server, client);
    assert_eq!(map.to_server(client), Ok(new_server));
    assert_eq!(map.to_client(new_server), Ok(client));
    assert_eq!(map.to_client(old_server), Err(MapError::EntityNotFound(old_server)));
}

#[test]
fn insert_overwrites_the_pair_that_shares_the_server() {
    let mut map = NetworkEntityMap::new();
    let server = EntityRef::from_raw(10);
    let old_client = EntityRef::from_raw(1);
    let new_client = EntityRef::from_raw(2);
    map.insert(server, old_client);
    map.insert(server, new_client);
    assert_eq!(map.to_client(server), Ok(new_client));
    assert_eq!(map.to_server(new_client), Ok(server));
    assert_eq!(map.to_server(old_client), Err(MapError::EntityNotFound(old_client)));
}

#[test]
fn insert_that_joins_two_pairs_leaves_one() {
    let mut map = NetworkEntityMap::new();
    let (c1, s1) = (EntityRef::from_raw(1), EntityRef::from_raw(10));
    let (c2, s2) = (EntityRef::from_raw(2), EntityRef::from_raw(20));
    map.insert(s1, c1);
    map.insert(s2, c2);
    map.insert(s2, c1);
    assert_eq!(map.to_server(c1), Ok(s2));
    assert_eq!(map.to_client(s2), Ok(c1));
    assert_eq!(map.to_server(c2), Err(MapError::EntityNotFound(c2)));
    assert_eq!(map.to_client(s1), Err(MapError::EntityNotFound(s1)));
}

#[test]
fn insert_of_the_same_pair_twice_keeps_it() {
    let mut map = NetworkEntityMap::new();
    let client = EntityRef::from_raw(1);
    let server = EntityRef::from_raw(10);
    map.insert(server, client);
    map.insert(server, client);
    assert_eq!(map.to_server(client), Ok(server));
    assert_eq!(map.to_client(server), Ok(client));
}

#[test]
fn a_reference_may_stand_on_both_sides() {
    let mut map = NetworkEntityMap::new();
    let same = EntityRef::from_raw(5);
    map.insert(same, same);
    assert_eq!(map.to_server(same), Ok(same));
    assert_eq!(map.to_client(same), Ok(same));
}

#[test]
fn clear_forgets_every_pair() {
    let mut map = NetworkEntityMap::new();
    map.insert(EntityRef::from_raw(10), EntityRef::from_raw(1));
    map.insert(EntityRef::from_raw(20), EntityRef::from_raw(2));
    map.clear();
    assert!(map.to_server(EntityRef::from_raw(1)).is_err());
    assert!(map.to_client(EntityRef::from_raw(20)).is_err());
    assert!(map.client_to_server().is_empty());
    assert!(map.server_to_client().is_empty());
}

#[test]
fn the_engine_maps_hold_the_pairs() {
    let mut map = NetworkEntityMap::new();
    let client = EntityRef::from_raw(1);
    let server = EntityRef::from_bits((7 << 32) | 10);
    map.insert(server, client);
    let to_server = map.client_to_server();
    assert_eq!(to_server.len(), 1);
    assert_eq!(
        to_server.get(Entity::from_bits(client.to_bits())).unwrap(),
        Entity::from_bits(server.to_bits())
    );
    let to_client = map.server_to_client();
    assert_eq!(to_client.len(), 1);
    assert_eq!(
        to_client.get(Entity::from_bits(server.to_bits())).unwrap(),
        Entity::from_bits(client.to_bits())
    );
}

#[test]
fn generations_tell_references_apart() {
    let mut map = NetworkEntityMap::new();
    let first = EntityRef::from_bits(4);
    let reused = EntityRef::from_bits((1 << 32) | 4);
    let server = EntityRef::from_raw(8);
    map.insert(server, first);
    assert_eq!(map.to_server(first), Ok(server));
    assert_eq!(map.to_server(reused), Err(MapError::EntityNotFound(reused)));
}
