//! The engine's entity map, as far as this library uses it.
//!
//! Nothing in this file is proved: it states what the rest of the library
//! takes for granted about `bevy::ecs::entity::EntityMap`. An entity crosses
//! this boundary by its bits, with `Entity::from_bits` on the way in and
//! `Entity::to_bits` on the way out, which are inverse to each other.

use vstd::prelude::*;
use bevy::ecs::entity::{Entity, EntityMap, MapEntitiesError};
use crate::entity::EntityRef;

verus! {

/// `bevy::ecs::entity::EntityMap`: a hash map from entity to entity.
#[verifier::external_type_specification]
#[verifier::external_body]
pub struct ExEntityMap(EntityMap);

/// `bevy::ecs::entity::MapEntitiesError`: what a failed lookup in an
/// `EntityMap` returns.
#[verifier::external_type_specification]
#[verifier::external_body]
pub struct ExMapEntitiesError(MapEntitiesError);

/// The pairs that an `EntityMap` holds: for each key, the bits of the key
/// and the bits of the entity that it maps to.
pub uninterp spec fn entity_map_pairs(map: EntityMap) -> Map<u64, u64>;

/// The pairs of an `EntityMap` as references.
pub open spec fn entity_map_view(map: EntityMap) -> Map<EntityRef, EntityRef> {
    Map::new(
        |e: EntityRef| entity_map_pairs(map).contains_key(e.bits),
        |e: EntityRef| EntityRef { bits: entity_map_pairs(map)[e.bits] },
    )
}

/// `EntityMap::default`: the result holds no pair.
#[verifier::external_body]
pub(crate) fn entity_map_new() -> (map: EntityMap)
    ensures
        entity_map_pairs(map) == (Map::<u64, u64>::empty()),
{
    EntityMap::default()
}

/// `EntityMap::insert`: afterwards `from` maps to `to` and every other key
/// is as before; the result is what `from` mapped to before, if anything.
#[verifier::external_body]
pub(crate) fn entity_map_insert(map: &mut EntityMap, from: EntityRef, to: EntityRef) -> (previous: Option<EntityRef>)
    ensures
        entity_map_pairs(*final(map)) == entity_map_pairs(*old(map)).insert(from.bits, to.bits),
        previous == (if entity_map_pairs(*old(map)).contains_key(from.bits) {
            Some(EntityRef { bits: entity_map_pairs(*old(map))[from.bits] })
        } else {
            None
        }),
{
    map.insert(Entity::from_bits(from.bits), Entity::from_bits(to.bits))
        .map(|e| EntityRef { bits: e.to_bits() })
}

/// `EntityMap::remove`: afterwards `entity` is no key and every other key
/// is as before; the result is what `entity` mapped to before, if anything.
#[verifier::external_body]
pub(crate) fn entity_map_remove(map: &mut EntityMap, entity: EntityRef) -> (previous: Option<EntityRef>)
    ensures
        entity_map_pairs(*final(map)) == entity_map_pairs(*old(map)).remove(entity.bits),
        previous == (if entity_map_pairs(*old(map)).contains_key(entity.bits) {
            Some(EntityRef { bits: entity_map_pairs(*old(map))[entity.bits] })
        } else {
            None
        }),
{
    map.remove(Entity::from_bits(entity.bits)).map(|e| EntityRef { bits: e.to_bits() })
}

/// `EntityMap::get`: the result is what `entity` maps to, or the engine's
/// error where `entity` is no key of the map. Nothing is claimed of what
/// the error holds.
#[verifier::external_body]
pub(crate) fn entity_map_get(map: &EntityMap, entity: EntityRef) -> (found: Result<EntityRef, MapEntitiesError>)
    ensures
        found is Ok == entity_map_pairs(*map).contains_key(entity.bits),
        found matches Ok(e) ==> e.bits == entity_map_pairs(*map)[entity.bits],
{
    map.get(Entity::from_bits(entity.bits)).map(|e| EntityRef { bits: e.to_bits() })
}

} // verus!
