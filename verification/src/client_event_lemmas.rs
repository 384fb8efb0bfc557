//! What holds of the client event paths: laws about the events that reach
//! the game logic, proved from the definitions in `client_event`.

use vstd::prelude::*;
use crate::client_event::{
    attributed, batch_decodes_to, carries, carries_all, carries_all_mapped, carries_mapped, decodes_to,
    local_events, maps_to, received, serializes_to, ChannelMessage, ClientEvent, ClientMessages,
    Decoded, SERVER_ID,
};
use crate::entity::EntityRef;
use crate::network_entity_map::{lemma_insert_then_lookup, EntityPairs, MapError, NetworkEntityMap};

verus! {

/// The events of two runs of payloads from one client are the events of the
/// first run followed by those of the second.
pub proof fn lemma_attributed_concat<T>(client_id: u64, first: Seq<Option<T>>, second: Seq<Option<T>>)
    ensures
        attributed(client_id, first + second) == attributed(client_id, first) + attributed(
            client_id,
            second,
        ),
    decreases second.len(),
{
    if second.len() == 0 {
        assert(first + second =~= first);
        assert(attributed(client_id, first) + attributed(client_id, second) =~= attributed(client_id, first));
    } else {
        assert((first + second).drop_last() =~= first + second.drop_last());
        assert((first + second).last() == second.last());
        lemma_attributed_concat(client_id, first, second.drop_last());
        let earlier = attributed(client_id, first) + attributed(client_id, second.drop_last());
        match second.last() {
            Some(event) => {
                assert(earlier.push(ClientEvent { client_id, event }) =~= attributed(client_id, first)
                    + attributed(client_id, second.drop_last()).push(ClientEvent { client_id, event }));
            },
            None => {},
        }
    }
}

/// The events of two runs of clients are the events of the first run
/// followed by those of the second.
pub proof fn lemma_received_concat<T>(first: Seq<Decoded<T>>, second: Seq<Decoded<T>>)
    ensures
        received(first + second) == received(first) + received(second),
    decreases second.len(),
{
    if second.len() == 0 {
        assert(first + second =~= first);
        assert(received(first) + received(second) =~= received(first));
    } else {
        assert((first + second).drop_last() =~= first + second.drop_last());
        assert((first + second).last() == second.last());
        lemma_received_concat(first, second.drop_last());
        let tail = attributed(second.last().client_id, second.last().outcomes);
        assert((received(first) + received(second.drop_last())) + tail =~= received(first) + (received(
            second.drop_last(),
        ) + tail));
    }
}

/// The events of a single client's batch are that client's events.
pub proof fn lemma_received_one<T>(batch: Decoded<T>)
    ensures
        received(seq![batch]) == attributed(batch.client_id, batch.outcomes),
{
    let one = seq![batch];
    assert(one.drop_last() =~= Seq::empty());
    assert(one.last() == batch);
    assert(received(one.drop_last()) =~= Seq::empty());
    assert(received(one) =~= attributed(batch.client_id, batch.outcomes));
}

/// A payload that held an event gives exactly that event under the
/// client's id, and a payload that held none gives nothing.
pub proof fn lemma_attributed_one<T>(client_id: u64, outcome: Option<T>)
    ensures
        attributed(client_id, seq![outcome]) == match outcome {
            Some(event) => seq![ClientEvent { client_id, event }],
            None => Seq::empty(),
        },
{
    let one = seq![outcome];
    assert(one.drop_last() =~= Seq::empty());
    assert(one.last() == outcome);
    assert(attributed(client_id, one.drop_last()) =~= Seq::empty());
    match outcome {
        Some(event) => {
            assert(Seq::<ClientEvent<T>>::empty().push(ClientEvent { client_id, event }) =~= seq![
                ClientEvent { client_id, event },
            ]);
        },
        None => {},
    }
}

/// No client has more events than it sent payloads.
pub proof fn lemma_attributed_len<T>(client_id: u64, outcomes: Seq<Option<T>>)
    ensures
        attributed(client_id, outcomes).len() <= outcomes.len(),
    decreases outcomes.len(),
{
    if outcomes.len() > 0 {
        lemma_attributed_len(client_id, outcomes.drop_last());
    }
}

/// Every event that comes out of a client's payloads carries that
/// client's id.
pub proof fn lemma_attributed_names_the_client<T>(client_id: u64, outcomes: Seq<Option<T>>, at: int)
    requires
        0 <= at < attributed(client_id, outcomes).len(),
    ensures
        attributed(client_id, outcomes)[at].client_id == client_id,
    decreases outcomes.len(),
{
    if outcomes.len() > 0 {
        let earlier = attributed(client_id, outcomes.drop_last());
        if at < earlier.len() {
            lemma_attributed_names_the_client(client_id, outcomes.drop_last(), at);
        }
    }
}

/// Where every payload of a client held an event, the server sees exactly
/// those events: one for each, unchanged, under the client's id and in the
/// order of the payloads.
pub proof fn lemma_all_decoded_all_published<T>(client_id: u64, events: Seq<T>)
    ensures
        attributed(client_id, Seq::new(events.len(), |i: int| Some(events[i]))) == Seq::new(
            events.len(),
            |i: int| ClientEvent { client_id, event: events[i] },
        ),
    decreases events.len(),
{
    let outcomes = Seq::new(events.len(), |i: int| Some(events[i]));
    let expected = Seq::new(events.len(), |i: int| ClientEvent { client_id, event: events[i] });
    if events.len() == 0 {
        assert(attributed(client_id, outcomes) =~= expected);
    } else {
        let shorter = events.drop_last();
        lemma_all_decoded_all_published(client_id, shorter);
        assert(outcomes.drop_last() =~= Seq::new(shorter.len(), |i: int| Some(shorter[i])));
        assert(outcomes.last() == Some(events.last()));
        assert(attributed(client_id, outcomes) =~= expected);
    }
}

/// The place of the event of payload `at` among a client's events: the
/// number of events that the payloads before it gave.
pub open spec fn place_of<T>(client_id: u64, outcomes: Seq<Option<T>>, at: int) -> int {
    attributed(client_id, outcomes.take(at)).len() as int
}

/// A payload that held an event has that event at its place among the
/// client's events, whatever the other payloads held.
pub proof fn lemma_event_at_its_place<T>(client_id: u64, outcomes: Seq<Option<T>>, at: int)
    requires
        0 <= at < outcomes.len(),
        outcomes[at] is Some,
    ensures
        0 <= place_of(client_id, outcomes, at) < attributed(client_id, outcomes).len(),
        attributed(client_id, outcomes)[place_of(client_id, outcomes, at)] == (ClientEvent {
            client_id,
            event: outcomes[at]->Some_0,
        }),
{
    let before = outcomes.take(at);
    let here = seq![outcomes[at]];
    let after = outcomes.skip(at + 1);
    assert(outcomes =~= (before + here) + after);
    lemma_attributed_concat(client_id, before + here, after);
    lemma_attributed_concat(client_id, before, here);
    lemma_attributed_one(client_id, outcomes[at]);
}

/// Events keep the order of their payloads: of two payloads of one client
/// that both held an event, the earlier one's event comes first.
pub proof fn lemma_order_is_kept<T>(client_id: u64, outcomes: Seq<Option<T>>, earlier: int, later: int)
    requires
        0 <= earlier < later < outcomes.len(),
        outcomes[earlier] is Some,
        outcomes[later] is Some,
    ensures
        place_of(client_id, outcomes, earlier) < place_of(client_id, outcomes, later),
{
    let upto = outcomes.take(later);
    assert(upto.take(earlier) =~= outcomes.take(earlier));
    assert(upto[earlier] == outcomes[earlier]);
    lemma_event_at_its_place(client_id, upto, earlier);
}

/// A payload that held no event changes nothing for the other payloads of
/// that client: the events are those of the payloads without it.
pub proof fn lemma_malformed_payload_is_skipped<T>(client_id: u64, outcomes: Seq<Option<T>>, at: int)
    requires
        0 <= at < outcomes.len(),
        outcomes[at] is None,
    ensures
        attributed(client_id, outcomes) == attributed(client_id, outcomes.remove(at)),
{
    let before = outcomes.take(at);
    let here = seq![outcomes[at]];
    let after = outcomes.skip(at + 1);
    assert(outcomes =~= (before + here) + after);
    assert(outcomes.remove(at) =~= before + after);
    lemma_attributed_concat(client_id, before + here, after);
    lemma_attributed_concat(client_id, before, here);
    lemma_attributed_concat(client_id, before, after);
    lemma_attributed_one(client_id, outcomes[at]);
    assert(attributed(client_id, before) + Seq::<ClientEvent<T>>::empty() =~= attributed(client_id, before));
}

/// A payload that held no event changes nothing for any client: the
/// events of the tick are those of the same batches without that payload.
pub proof fn lemma_malformed_payload_blocks_no_client<T>(batches: Seq<Decoded<T>>, client: int, at: int)
    requires
        0 <= client < batches.len(),
        0 <= at < batches[client].outcomes.len(),
        batches[client].outcomes[at] is None,
    ensures
        received(batches) == received(
            batches.update(
                client,
                Decoded {
                    client_id: batches[client].client_id,
                    outcomes: batches[client].outcomes.remove(at),
                },
            ),
        ),
{
    let batch = batches[client];
    let cleaned = Decoded { client_id: batch.client_id, outcomes: batch.outcomes.remove(at) };
    let before = batches.take(client);
    let after = batches.skip(client + 1);
    assert(batches =~= (before + seq![batch]) + after);
    assert(batches.update(client, cleaned) =~= (before + seq![cleaned]) + after);
    lemma_received_concat(before + seq![batch], after);
    lemma_received_concat(before, seq![batch]);
    lemma_received_concat(before + seq![cleaned], after);
    lemma_received_concat(before, seq![cleaned]);
    lemma_malformed_payload_is_skipped(batch.client_id, batch.outcomes, at);
    lemma_received_one(batch);
    lemma_received_one(cleaned);
}

/// The round trip of a client's events: where the payloads that
/// `sending_system` made of `events` are deserialized on the server, and
/// deserializing a payload gives back the event it was made of, the server
/// sees exactly `events`, each once, unchanged, in order and under the
/// client's id.
pub proof fn lemma_round_trip<
    T,
    SE,
    DE,
    S: Fn(&T) -> Result<Vec<u8>, SE>,
    D: Fn(&Vec<u8>) -> Result<T, DE>,
>(
    serialize: S,
    deserialize: D,
    events: Seq<T>,
    channel_id: u8,
    messages: Seq<ChannelMessage>,
    batch: ClientMessages,
    decoded: Decoded<T>,
)
    requires
        carries_all(serialize, events, channel_id, messages),
        batch.messages.len() == messages.len(),
        forall|i: int| 0 <= i < messages.len() ==> #[trigger] batch.messages[i] == messages[i].payload,
        batch_decodes_to(deserialize, batch, decoded),
        forall|event: T, payload: Vec<u8>, outcome: Option<T>|
            #[trigger] serializes_to(serialize, event, payload) && #[trigger] decodes_to(
                deserialize,
                payload,
                outcome,
            ) ==> outcome == Some(event),
    ensures
        attributed(batch.client_id, decoded.outcomes) == Seq::new(
            events.len(),
            |i: int| ClientEvent { client_id: batch.client_id, event: events[i] },
        ),
{
    let outcomes = Seq::new(events.len(), |i: int| Some(events[i]));
    assert forall|i: int| 0 <= i < events.len() implies decoded.outcomes[i] == outcomes[i] by {
        assert(carries(serialize, events[i], channel_id, messages[i]));
        assert(batch.messages[i] == messages[i].payload);
        assert(decodes_to(deserialize, batch.messages[i], decoded.outcomes[i]));
        assert(serializes_to(serialize, events[i], messages[i].payload));
    }
    assert(decoded.outcomes =~= outcomes);
    lemma_all_decoded_all_published(batch.client_id, events);
}

/// The local path gives what the transport would give: the events that a
/// client with the id `SERVER_ID` would be seen to send if each of its
/// payloads came through.
pub proof fn lemma_local_resending_matches_receiving<T>(events: Seq<T>)
    ensures
        local_events(events) == attributed(SERVER_ID, Seq::new(events.len(), |i: int| Some(events[i]))),
        local_events(events).len() == events.len(),
{
    lemma_all_decoded_all_published(SERVER_ID, events);
    assert(local_events(events) =~= Seq::new(
        events.len(),
        |i: int| ClientEvent { client_id: SERVER_ID, event: events[i] },
    ));
}

/// `map_entities` maps a bare reference as the entity map does.
pub open spec fn maps_references<M: Fn(EntityRef, &NetworkEntityMap) -> Result<EntityRef, MapError>>(
    map_entities: M,
) -> bool {
    forall|entity: EntityRef, entity_map: NetworkEntityMap, mapped: Result<EntityRef, MapError>|
        #[trigger] call_ensures(map_entities, (entity, &entity_map), mapped) ==> mapped
            == entity_map@.server_of(entity)
}

/// An event that is a reference to a client's entity goes out as the
/// reference to the server's entity that was paired with it.
pub proof fn lemma_reference_is_mapped<
    SE,
    M: Fn(EntityRef, &NetworkEntityMap) -> Result<EntityRef, MapError>,
    S: Fn(&EntityRef) -> Result<Vec<u8>, SE>,
>(
    map_entities: M,
    serialize: S,
    entity_map: NetworkEntityMap,
    before: EntityPairs,
    server_entity: EntityRef,
    client_entity: EntityRef,
    channel_id: u8,
    message: ChannelMessage,
)
    requires
        maps_references(map_entities),
        entity_map@ == before.insert(server_entity, client_entity),
        carries_mapped(map_entities, serialize, entity_map, client_entity, channel_id, message),
    ensures
        serializes_to(serialize, server_entity, message.payload),
{
    let mapped = choose|mapped: EntityRef|
        #[trigger] maps_to(map_entities, entity_map, client_entity, mapped) && serializes_to(
            serialize,
            mapped,
            message.payload,
        );
    assert(call_ensures(map_entities, (client_entity, &entity_map), Ok(mapped)));
    lemma_insert_then_lookup(before, server_entity, client_entity);
}

/// An event that is a reference unknown to the entity map is never sent:
/// no messages come of a batch that holds one.
pub proof fn lemma_unknown_reference_is_not_sent<
    SE,
    M: Fn(EntityRef, &NetworkEntityMap) -> Result<EntityRef, MapError>,
    S: Fn(&EntityRef) -> Result<Vec<u8>, SE>,
>(
    map_entities: M,
    serialize: S,
    entity_map: NetworkEntityMap,
    events: Seq<EntityRef>,
    at: int,
    channel_id: u8,
    messages: Seq<ChannelMessage>,
)
    requires
        maps_references(map_entities),
        0 <= at < events.len(),
        entity_map@.server_of(events[at]) is Err,
    ensures
        !carries_all_mapped(map_entities, serialize, entity_map, events, channel_id, messages),
{
    if carries_all_mapped(map_entities, serialize, entity_map, events, channel_id, messages) {
        assert(carries_mapped(map_entities, serialize, entity_map, events[at], channel_id, messages[at]));
        let mapped = choose|mapped: EntityRef|
            #[trigger] maps_to(map_entities, entity_map, events[at], mapped) && serializes_to(
                serialize,
                mapped,
                messages[at].payload,
            );
        assert(call_ensures(map_entities, (events[at], &entity_map), Ok(mapped)));
    }
}

} // verus!
