//! The entity reference map: the table that maps between a client's
//! entity references and the server's.

use vstd::prelude::*;
use bevy::ecs::entity::EntityMap;
use crate::entity::EntityRef;
use crate::entity_map::{
    entity_map_get, entity_map_insert, entity_map_new, entity_map_remove, entity_map_view,
};

verus! {

/// Why a reference could not be mapped.
#[derive(Clone, Copy, Debug, PartialEq, Eq, Structural)]
pub enum MapError {
    /// The reference is not known to both sides.
    EntityNotFound(EntityRef),
}

/// `key` maps to `value` in `map`.
pub open spec fn holds(map: Map<EntityRef, EntityRef>, key: EntityRef, value: EntityRef) -> bool {
    map.contains_key(key) && map[key] == value
}

/// `map` without the keys that map to `value`, and with `key` mapped to
/// `value`.
pub open spec fn displace(
    map: Map<EntityRef, EntityRef>,
    key: EntityRef,
    value: EntityRef,
) -> Map<EntityRef, EntityRef> {
    Map::new(
        |k: EntityRef| k == key || (map.contains_key(k) && map[k] != value),
        |k: EntityRef| if k == key { value } else { map[k] },
    )
}

/// What a lookup of `key` in `map` gives.
pub open spec fn lookup(map: Map<EntityRef, EntityRef>, key: EntityRef) -> Result<EntityRef, MapError> {
    if map.contains_key(key) {
        Ok(map[key])
    } else {
        Err(MapError::EntityNotFound(key))
    }
}

/// The mathematical content of a `NetworkEntityMap`: the two directions of
/// the mapping.
pub struct EntityPairs {
    /// From a client's reference to the server's.
    pub to_server: Map<EntityRef, EntityRef>,
    /// From the server's reference to the client's.
    pub to_client: Map<EntityRef, EntityRef>,
}

impl EntityPairs {
    /// No pair at all.
    pub open spec fn empty() -> EntityPairs {
        EntityPairs { to_server: Map::empty(), to_client: Map::empty() }
    }

    /// The two directions hold the same pairs.
    pub open spec fn wf(self) -> bool {
        forall|client: EntityRef, server: EntityRef|
            #![trigger holds(self.to_server, client, server)]
            #![trigger holds(self.to_client, server, client)]
            holds(self.to_server, client, server) == holds(self.to_client, server, client)
    }

    /// The pair (`client`, `server`) is present.
    pub open spec fn contains_pair(self, server: EntityRef, client: EntityRef) -> bool {
        holds(self.to_server, client, server) && holds(self.to_client, server, client)
    }

    /// The pairs after (`client`, `server`) is established: that pair, and
    /// every earlier pair that shares neither half with it.
    pub open spec fn insert(self, server: EntityRef, client: EntityRef) -> EntityPairs {
        EntityPairs {
            to_server: displace(self.to_server, client, server),
            to_client: displace(self.to_client, server, client),
        }
    }

    /// The pairs after the pair of `client` is evicted.
    pub open spec fn remove_by_client(self, client: EntityRef) -> EntityPairs {
        if self.to_server.contains_key(client) {
            EntityPairs {
                to_server: self.to_server.remove(client),
                to_client: self.to_client.remove(self.to_server[client]),
            }
        } else {
            self
        }
    }

    /// The pairs after the pair of `server` is evicted.
    pub open spec fn remove_by_server(self, server: EntityRef) -> EntityPairs {
        if self.to_client.contains_key(server) {
            EntityPairs {
                to_server: self.to_server.remove(self.to_client[server]),
                to_client: self.to_client.remove(server),
            }
        } else {
            self
        }
    }

    /// The server's reference for `client`.
    pub open spec fn server_of(self, client: EntityRef) -> Result<EntityRef, MapError> {
        lookup(self.to_server, client)
    }

    /// The client's reference for `server`.
    pub open spec fn client_of(self, server: EntityRef) -> Result<EntityRef, MapError> {
        lookup(self.to_client, server)
    }
}

/// Maps entity references between a client and the server, in both
/// directions. The two directions always hold the same pairs.
pub struct NetworkEntityMap {
    server_to_client: EntityMap,
    client_to_server: EntityMap,
}

impl View for NetworkEntityMap {
    type V = EntityPairs;

    closed spec fn view(&self) -> EntityPairs {
        EntityPairs {
            to_server: entity_map_view(self.client_to_server),
            to_client: entity_map_view(self.server_to_client),
        }
    }
}

impl Default for NetworkEntityMap {
    fn default() -> (map: NetworkEntityMap)
        ensures
            map.wf(),
            map@ == EntityPairs::empty(),
    {
        NetworkEntityMap::new()
    }
}

impl NetworkEntityMap {
    /// The two directions agree.
    pub open spec fn wf(&self) -> bool {
        self@.wf()
    }

    /// A map without pairs.
    pub fn new() -> (map: NetworkEntityMap)
        ensures
            map.wf(),
            map@ == EntityPairs::empty(),
    {
        let map = NetworkEntityMap {
            server_to_client: entity_map_new(),
            client_to_server: entity_map_new(),
        };
        assert(map@.to_server =~= Map::empty());
        assert(map@.to_client =~= Map::empty());
        map
    }

    /// Establishes the pair of `server_entity` and `client_entity`. A pair
    /// that shared either half with it is gone.
    pub fn insert(&mut self, server_entity: EntityRef, client_entity: EntityRef)
        requires
            old(self).wf(),
        ensures
            final(self).wf(),
            final(self)@ == old(self)@.insert(server_entity, client_entity),
    {
        let ghost before = self@;
        let old_client = entity_map_insert(&mut self.server_to_client, server_entity, client_entity);
        match old_client {
            Some(stale) => {
                if stale != client_entity {
                    entity_map_remove(&mut self.client_to_server, stale);
                }
            },
            None => {},
        }
        let old_server = entity_map_insert(&mut self.client_to_server, client_entity, server_entity);
        match old_server {
            Some(stale) => {
                if stale != server_entity {
                    entity_map_remove(&mut self.server_to_client, stale);
                }
            },
            None => {},
        }
        proof {
            let after = self@;
            let expected = before.insert(server_entity, client_entity);
            assert forall|k: EntityRef| after.to_server.contains_key(k) == expected.to_server.contains_key(k) by {
                if before.to_server.contains_key(k) {
                    assert(holds(before.to_server, k, before.to_server[k]));
                }
                assert(holds(before.to_client, server_entity, k) == holds(before.to_server, k, server_entity));
            }
            assert forall|k: EntityRef| after.to_client.contains_key(k) == expected.to_client.contains_key(k) by {
                if before.to_client.contains_key(k) {
                    assert(holds(before.to_client, k, before.to_client[k]));
                }
                assert(holds(before.to_server, client_entity, k) == holds(before.to_client, k, client_entity));
            }
            assert(after.to_server =~= expected.to_server);
            assert(after.to_client =~= expected.to_client);
            lemma_insert_keeps_agreement(before, server_entity, client_entity);
        }
    }

    /// Forgets every pair, as when the connection to the server is lost.
    pub fn clear(&mut self)
        ensures
            final(self).wf(),
            final(self)@ == EntityPairs::empty(),
    {
        self.server_to_client = entity_map_new();
        self.client_to_server = entity_map_new();
        assert(self@.to_server =~= Map::empty());
        assert(self@.to_client =~= Map::empty());
    }

    /// The server's reference for `client_entity`.
    pub fn to_server(&self, client_entity: EntityRef) -> (found: Result<EntityRef, MapError>)
        ensures
            found == self@.server_of(client_entity),
    {
        match entity_map_get(&self.client_to_server, client_entity) {
            Ok(server_entity) => Ok(server_entity),
            Err(_) => Err(MapError::EntityNotFound(client_entity)),
        }
    }

    /// The client's reference for `server_entity`.
    pub fn to_client(&self, server_entity: EntityRef) -> (found: Result<EntityRef, MapError>)
        ensures
            found == self@.client_of(server_entity),
    {
        match entity_map_get(&self.server_to_client, server_entity) {
            Ok(client_entity) => Ok(client_entity),
            Err(_) => Err(MapError::EntityNotFound(server_entity)),
        }
    }

    /// Evicts the pair of `client_entity` from both directions and returns
    /// its server half. Without such a pair nothing changes.
    pub fn remove_by_client(&mut self, client_entity: EntityRef) -> (removed: Option<EntityRef>)
        requires
            old(self).wf(),
        ensures
            final(self).wf(),
            final(self)@ == old(self)@.remove_by_client(client_entity),
            removed == old(self)@.server_of(client_entity).ok(),
    {
        let ghost before = self@;
        let server_entity = entity_map_remove(&mut self.client_to_server, client_entity);
        match server_entity {
            Some(server) => {
                entity_map_remove(&mut self.server_to_client, server);
            },
            None => {},
        }
        proof {
            let after = self@;
            let expected = before.remove_by_client(client_entity);
            assert(after.to_server =~= expected.to_server);
            assert(after.to_client =~= expected.to_client);
            lemma_remove_by_client_keeps_agreement(before, client_entity);
        }
        server_entity
    }

    /// Evicts the pair of `server_entity` from both directions and returns
    /// its client half. Without such a pair nothing changes.
    pub fn remove_by_server(&mut self, server_entity: EntityRef) -> (removed: Option<EntityRef>)
        requires
            old(self).wf(),
        ensures
            final(self).wf(),
            final(self)@ == old(self)@.remove_by_server(server_entity),
            removed == old(self)@.client_of(server_entity).ok(),
    {
        let ghost before = self@;
        let client_entity = entity_map_remove(&mut self.server_to_client, server_entity);
        match client_entity {
            Some(client) => {
                entity_map_remove(&mut self.client_to_server, client);
            },
            None => {},
        }
        proof {
            let after = self@;
            let expected = before.remove_by_server(server_entity);
            assert(after.to_server =~= expected.to_server);
            assert(after.to_client =~= expected.to_client);
            lemma_remove_by_server_keeps_agreement(before, server_entity);
        }
        client_entity
    }

    /// The client-to-server direction as the engine's map.
    pub fn client_to_server(&self) -> (map: &EntityMap)
        ensures
            entity_map_view(*map) == self@.to_server,
    {
        &self.client_to_server
    }

    /// The server-to-client direction as the engine's map.
    pub fn server_to_client(&self) -> (map: &EntityMap)
        ensures
            entity_map_view(*map) == self@.to_client,
    {
        &self.server_to_client
    }
}

/// Establishing a pair keeps the two directions in agreement.
pub proof fn lemma_insert_keeps_agreement(pairs: EntityPairs, server: EntityRef, client: EntityRef)
    requires
        pairs.wf(),
    ensures
        pairs.insert(server, client).wf(),
{
    let after = pairs.insert(server, client);
    assert forall|c: EntityRef, s: EntityRef|
        holds(after.to_server, c, s) == holds(after.to_client, s, c) by {
        assert(holds(pairs.to_server, c, s) == holds(pairs.to_client, s, c));
        if pairs.to_server.contains_key(c) {
            assert(holds(pairs.to_server, c, pairs.to_server[c]));
        }
        if pairs.to_client.contains_key(s) {
            assert(holds(pairs.to_client, s, pairs.to_client[s]));
        }
    }
}

/// Evicting a pair by its client half keeps the two directions in agreement.
pub proof fn lemma_remove_by_client_keeps_agreement(pairs: EntityPairs, client: EntityRef)
    requires
        pairs.wf(),
    ensures
        pairs.remove_by_client(client).wf(),
{
    let after = pairs.remove_by_client(client);
    if pairs.to_server.contains_key(client) {
        let server = pairs.to_server[client];
        assert(holds(pairs.to_server, client, server));
        assert forall|c: EntityRef, s: EntityRef|
            holds(after.to_server, c, s) == holds(after.to_client, s, c) by {
            assert(holds(pairs.to_server, c, s) == holds(pairs.to_client, s, c));
        }
    }
}

/// Evicting a pair by its server half keeps the two directions in agreement.
pub proof fn lemma_remove_by_server_keeps_agreement(pairs: EntityPairs, server: EntityRef)
    requires
        pairs.wf(),
    ensures
        pairs.remove_by_server(server).wf(),
{
    let after = pairs.remove_by_server(server);
    if pairs.to_client.contains_key(server) {
        let client = pairs.to_client[server];
        assert(holds(pairs.to_client, server, client));
        assert forall|c: EntityRef, s: EntityRef|
            holds(after.to_server, c, s) == holds(after.to_client, s, c) by {
            assert(holds(pairs.to_server, c, s) == holds(pairs.to_client, s, c));
        }
    }
}

/// After a pair is established, each half is found from the other.
pub proof fn lemma_insert_then_lookup(pairs: EntityPairs, server: EntityRef, client: EntityRef)
    ensures
        pairs.insert(server, client).server_of(client) == Ok::<EntityRef, MapError>(server),
        pairs.insert(server, client).client_of(server) == Ok::<EntityRef, MapError>(client),
        pairs.insert(server, client).contains_pair(server, client),
{
}

/// After a pair is established and then evicted by its client half, neither
/// half is found any more.
pub proof fn lemma_insert_remove_by_client(pairs: EntityPairs, server: EntityRef, client: EntityRef)
    ensures
        pairs.insert(server, client).remove_by_client(client).server_of(client)
            == Err::<EntityRef, MapError>(MapError::EntityNotFound(client)),
        pairs.insert(server, client).remove_by_client(client).client_of(server)
            == Err::<EntityRef, MapError>(MapError::EntityNotFound(server)),
{
}

/// After a pair is established and then evicted by its server half, neither
/// half is found any more.
pub proof fn lemma_insert_remove_by_server(pairs: EntityPairs, server: EntityRef, client: EntityRef)
    ensures
        pairs.insert(server, client).remove_by_server(server).server_of(client)
            == Err::<EntityRef, MapError>(MapError::EntityNotFound(client)),
        pairs.insert(server, client).remove_by_server(server).client_of(server)
            == Err::<EntityRef, MapError>(MapError::EntityNotFound(server)),
{
}

/// In a map whose directions agree, evicting a pair by either half makes
/// both lookups fail.
pub proof fn lemma_remove_forgets_both_halves(pairs: EntityPairs, server: EntityRef, client: EntityRef)
    requires
        pairs.wf(),
        pairs.contains_pair(server, client),
    ensures
        pairs.remove_by_client(client).server_of(client) is Err,
        pairs.remove_by_client(client).client_of(server) is Err,
        pairs.remove_by_server(server).server_of(client) is Err,
        pairs.remove_by_server(server).client_of(server) is Err,
{
}

/// In a map whose directions agree, the two lookups are inverse to each
/// other.
pub proof fn lemma_lookups_are_inverse(pairs: EntityPairs, server: EntityRef, client: EntityRef)
    requires
        pairs.wf(),
    ensures
        pairs.server_of(client) == Ok::<EntityRef, MapError>(server)
            <==> pairs.client_of(server) == Ok::<EntityRef, MapError>(client),
{
    assert(holds(pairs.to_server, client, server) == holds(pairs.to_client, server, client));
}

} // verus!
