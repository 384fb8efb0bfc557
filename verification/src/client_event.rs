//! Client events: how an event raised on a client reaches the server's game
//! logic as an event that names its sender.

use vstd::prelude::*;
use crate::event_channel::{channel_id_of, EventChannel, NetworkEventCounter};
use crate::network_entity_map::NetworkEntityMap;
use crate::sets::{EventSystem, SystemConfig};

verus! {

/// The client id that stands for the authority itself: events that never
/// crossed a transport carry it.
pub const SERVER_ID: u64 = 0;

/// An event together with the client that raised it.
#[derive(Debug, PartialEq, Eq)]
pub struct ClientEvent<T> {
    pub client_id: u64,
    pub event: T,
}

impl<T: Clone> Clone for ClientEvent<T> {
    fn clone(&self) -> (cloned: ClientEvent<T>)
        ensures
            cloned.client_id == self.client_id,
            call_ensures(T::clone, (&self.event,), cloned.event),
    {
        ClientEvent { client_id: self.client_id, event: self.event.clone() }
    }
}

impl<T: Copy> Copy for ClientEvent<T> {

}

/// A payload to transmit on a channel.
#[derive(Debug, PartialEq, Eq)]
pub struct ChannelMessage {
    pub channel_id: u8,
    pub payload: Vec<u8>,
}

/// Why a batch of events could not be sent.
#[derive(Debug, PartialEq, Eq)]
pub enum SendError<M, S> {
    /// An entity reference in an event is unknown to the entity map.
    Mapping(M),
    /// An event could not be turned into a payload.
    Serialization(S),
}

/// The sending system that a registration installs where the caller
/// brings none of its own.
#[derive(Clone, Copy, Debug, PartialEq, Eq, Structural)]
pub enum SendingSystem {
    /// `sending_system`: events go out as they are.
    Plain,
    /// `mapping_and_sending_system`: entity references are mapped to
    /// the server's first.
    Mapped,
}

/// What the registration of an event type `T` installs: the channel of the
/// type and its three systems, each with the phase in which it runs.
pub struct ClientEventRegistration<T, S> {
    /// The channel on which events of this type travel.
    pub channel: EventChannel<T>,
    /// The system that sends the events of a connected client.
    pub sending_system: S,
    /// Where `sending_system` runs.
    pub sending: SystemConfig,
    /// Where `local_resending_system` runs.
    pub local_resending: SystemConfig,
    /// Where `receiving_system` runs.
    pub receiving: SystemConfig,
}

impl<T, S> ClientEventRegistration<T, S> {
    /// The registration is the one with ordinal `ordinal` and sends with
    /// `sending_system`.
    pub open spec fn is_registration(self, ordinal: int, sending_system: S) -> bool {
        &&& self.channel.id == channel_id_of(ordinal)
        &&& self.sending_system == sending_system
        &&& self.sending == EventSystem::Sending.config_of()
        &&& self.local_resending == EventSystem::LocalResending.config_of()
        &&& self.receiving == EventSystem::Receiving.config_of()
    }
}

impl NetworkEventCounter {
    /// Registers the event type `T`: it gets the next channel id, and its
    /// events are sent as they are.
    pub fn add_client_event<T>(&mut self) -> (registration: ClientEventRegistration<T, SendingSystem>)
        requires
            old(self).has_room(),
        ensures
            final(self).registered() == old(self).registered() + 1,
            registration.is_registration(final(self).registered(), SendingSystem::Plain),
    {
        self.add_client_event_with(SendingSystem::Plain)
    }

    /// Registers the event type `T` like `add_client_event`, but its events
    /// have their entity references mapped to the server's before they
    /// are sent.
    pub fn add_mapped_client_event<T>(&mut self) -> (registration: ClientEventRegistration<T, SendingSystem>)
        requires
            old(self).has_room(),
        ensures
            final(self).registered() == old(self).registered() + 1,
            registration.is_registration(final(self).registered(), SendingSystem::Mapped),
    {
        self.add_client_event_with(SendingSystem::Mapped)
    }

    /// Registers the event type `T` like `add_client_event`, but with the
    /// caller's own sending system.
    pub fn add_client_event_with<T, S>(&mut self, sending_system: S) -> (registration: ClientEventRegistration<T, S>)
        requires
            old(self).has_room(),
        ensures
            final(self).registered() == old(self).registered() + 1,
            registration.is_registration(final(self).registered(), sending_system),
    {
        let channel = self.next_channel();
        ClientEventRegistration {
            channel,
            sending_system,
            sending: EventSystem::Sending.config(),
            local_resending: EventSystem::LocalResending.config(),
            receiving: EventSystem::Receiving.config(),
        }
    }
}

/// `serialize` may turn `event` into `payload`.
pub open spec fn serializes_to<T, E, S: Fn(&T) -> Result<Vec<u8>, E>>(
    serialize: S,
    event: T,
    payload: Vec<u8>,
) -> bool {
    call_ensures(serialize, (&event,), Ok(payload))
}

/// `serialize` may fail on `event` with `error`.
pub open spec fn fails_to_serialize<T, E, S: Fn(&T) -> Result<Vec<u8>, E>>(
    serialize: S,
    event: T,
    error: E,
) -> bool {
    call_ensures(serialize, (&event,), Err(error))
}

/// `message` goes out on channel `channel_id` with a payload that
/// `serialize` may make of `event`.
pub open spec fn carries<T, E, S: Fn(&T) -> Result<Vec<u8>, E>>(
    serialize: S,
    event: T,
    channel_id: u8,
    message: ChannelMessage,
) -> bool {
    message.channel_id == channel_id && serializes_to(serialize, event, message.payload)
}

/// `messages` are what `serialize` may make of `events`: one message for each
/// event, in the same order, all on channel `channel_id`.
pub open spec fn carries_all<T, E, S: Fn(&T) -> Result<Vec<u8>, E>>(
    serialize: S,
    events: Seq<T>,
    channel_id: u8,
    messages: Seq<ChannelMessage>,
) -> bool {
    &&& messages.len() == events.len()
    &&& forall|i: int|
        0 <= i < events.len() ==> #[trigger] carries(serialize, events[i], channel_id, messages[i])
}

/// `serialize` may fail with `error` on the event at `at`, after it has
/// turned every earlier event into a message.
pub open spec fn sending_fails_at<T, E, S: Fn(&T) -> Result<Vec<u8>, E>>(
    serialize: S,
    events: Seq<T>,
    channel_id: u8,
    at: int,
    error: E,
) -> bool {
    &&& 0 <= at < events.len()
    &&& fails_to_serialize(serialize, events[at], error)
    &&& exists|messages: Seq<ChannelMessage>| #[trigger]
        carries_all(serialize, events.take(at), channel_id, messages)
}

/// Takes every raised event out of the queue and turns it into a message on
/// the channel of its type, in the order in which the events were raised.
/// Fails with the serializer's error at the first event that cannot be
/// serialized; nothing is to be sent then.
pub fn sending_system<T, E, S: Fn(&T) -> Result<Vec<u8>, E>>(
    events: &mut Vec<T>,
    channel: &EventChannel<T>,
    serialize: S,
) -> (sent: Result<Vec<ChannelMessage>, E>)
    requires
        forall|i: int| 0 <= i < old(events).len() ==> call_requires(serialize, (&#[trigger] old(events)[i],)),
    ensures
        final(events)@.len() == 0,
        sent matches Ok(messages) ==> carries_all(serialize, old(events)@, channel.id, messages@),
        sent matches Err(failure) ==> exists|at: int| #[trigger]
            sending_fails_at(serialize, old(events)@, channel.id, at, failure),
{
    let mut raised: Vec<T> = Vec::new();
    core::mem::swap(events, &mut raised);
    let mut messages: Vec<ChannelMessage> = Vec::new();
    let mut i: usize = 0;
    while i < raised.len()
        invariant
            events@.len() == 0,
            raised@ == old(events)@,
            i <= raised.len(),
            forall|k: int| 0 <= k < raised.len() ==> call_requires(serialize, (&#[trigger] raised[k],)),
            carries_all(serialize, raised@.take(i as int), channel.id, messages@),
        decreases raised.len() - i,
    {
        match serialize(&raised[i]) {
            Ok(payload) => {
                let ghost sent_before = messages@;
                messages.push(ChannelMessage { channel_id: channel.id, payload });
                proof {
                    let upto = raised@.take(i as int + 1);
                    assert forall|k: int| 0 <= k < upto.len() implies #[trigger] carries(
                        serialize,
                        upto[k],
                        channel.id,
                        messages@[k],
                    ) by {
                        if k < i {
                            assert(carries(serialize, raised@.take(i as int)[k], channel.id, sent_before[k]));
                        }
                    }
                }
            },
            Err(error) => {
                let failed: Result<Vec<ChannelMessage>, E> = Err(error);
                assert(sending_fails_at(serialize, old(events)@, channel.id, i as int, failed->Err_0));
                return failed;
            },
        }
        i = i + 1;
    }
    assert(raised@.take(raised.len() as int) == raised@);
    Ok(messages)
}

/// `map_entities` may turn `event` into `mapped` under `entity_map`.
pub open spec fn maps_to<T, E, M: Fn(T, &NetworkEntityMap) -> Result<T, E>>(
    map_entities: M,
    entity_map: NetworkEntityMap,
    event: T,
    mapped: T,
) -> bool {
    call_ensures(map_entities, (event, &entity_map), Ok(mapped))
}

/// `map_entities` may fail on `event` under `entity_map` with `error`.
pub open spec fn fails_to_map<T, E, M: Fn(T, &NetworkEntityMap) -> Result<T, E>>(
    map_entities: M,
    entity_map: NetworkEntityMap,
    event: T,
    error: E,
) -> bool {
    call_ensures(map_entities, (event, &entity_map), Err(error))
}

/// `message` goes out on channel `channel_id` with a payload that
/// `serialize` may make of what `map_entities` may make of `event` under
/// `entity_map`.
pub open spec fn carries_mapped<
    T,
    ME,
    SE,
    M: Fn(T, &NetworkEntityMap) -> Result<T, ME>,
    S: Fn(&T) -> Result<Vec<u8>, SE>,
>(
    map_entities: M,
    serialize: S,
    entity_map: NetworkEntityMap,
    event: T,
    channel_id: u8,
    message: ChannelMessage,
) -> bool {
    message.channel_id == channel_id && exists|mapped: T|
        #[trigger] maps_to(map_entities, entity_map, event, mapped) && serializes_to(
            serialize,
            mapped,
            message.payload,
        )
}

/// `messages` are what `map_entities` and then `serialize` may make of
/// `events`: one message for each event, in the same order, all on channel
/// `channel_id`.
pub open spec fn carries_all_mapped<
    T,
    ME,
    SE,
    M: Fn(T, &NetworkEntityMap) -> Result<T, ME>,
    S: Fn(&T) -> Result<Vec<u8>, SE>,
>(
    map_entities: M,
    serialize: S,
    entity_map: NetworkEntityMap,
    events: Seq<T>,
    channel_id: u8,
    messages: Seq<ChannelMessage>,
) -> bool {
    &&& messages.len() == events.len()
    &&& forall|i: int|
        0 <= i < events.len() ==> #[trigger] carries_mapped(
            map_entities,
            serialize,
            entity_map,
            events[i],
            channel_id,
            messages[i],
        )
}

/// The send may fail with `error` at the event at `at`, after every
/// earlier event has been mapped and turned into a message: either
/// `map_entities` fails on that event, or `serialize` fails on what
/// `map_entities` made of it.
pub open spec fn mapped_sending_fails_at<
    T,
    ME,
    SE,
    M: Fn(T, &NetworkEntityMap) -> Result<T, ME>,
    S: Fn(&T) -> Result<Vec<u8>, SE>,
>(
    map_entities: M,
    serialize: S,
    entity_map: NetworkEntityMap,
    events: Seq<T>,
    channel_id: u8,
    at: int,
    error: SendError<ME, SE>,
) -> bool {
    &&& 0 <= at < events.len()
    &&& match error {
        SendError::Mapping(error) => fails_to_map(map_entities, entity_map, events[at], error),
        SendError::Serialization(error) => exists|mapped: T|
            #[trigger] maps_to(map_entities, entity_map, events[at], mapped) && fails_to_serialize(
                serialize,
                mapped,
                error,
            ),
    }
    &&& exists|messages: Seq<ChannelMessage>| #[trigger]
        carries_all_mapped(map_entities, serialize, entity_map, events.take(at), channel_id, messages)
}

/// Takes every raised event out of the queue, maps its entity
/// references to the server's with `map_entities`, and turns it into a
/// message on the channel of its type, in the order in which the events were
/// raised. Fails at the first event whose references cannot be mapped
/// or that cannot be serialized; nothing is to be sent then.
pub fn mapping_and_sending_system<
    T,
    ME,
    SE,
    M: Fn(T, &NetworkEntityMap) -> Result<T, ME>,
    S: Fn(&T) -> Result<Vec<u8>, SE>,
>(
    events: &mut Vec<T>,
    entity_map: &NetworkEntityMap,
    channel: &EventChannel<T>,
    map_entities: M,
    serialize: S,
) -> (sent: Result<Vec<ChannelMessage>, SendError<ME, SE>>)
    requires
        forall|i: int|
            0 <= i < old(events).len() ==> call_requires(
                map_entities,
                (#[trigger] old(events)[i], entity_map),
            ),
        forall|i: int, mapped: T|
            0 <= i < old(events).len() && #[trigger] maps_to(
                map_entities,
                *entity_map,
                old(events)[i],
                mapped,
            ) ==> call_requires(serialize, (&mapped,)),
    ensures
        final(events)@.len() == 0,
        sent matches Ok(messages) ==> carries_all_mapped(
            map_entities,
            serialize,
            *entity_map,
            old(events)@,
            channel.id,
            messages@,
        ),
        sent matches Err(failure) ==> exists|at: int| #[trigger]
            mapped_sending_fails_at(
                map_entities,
                serialize,
                *entity_map,
                old(events)@,
                channel.id,
                at,
                failure,
            ),
{
    let mut drained: Vec<T> = Vec::new();
    core::mem::swap(events, &mut drained);
    let ghost raised = drained@;
    let mut messages: Vec<ChannelMessage> = Vec::new();
    for event in it: drained
        invariant
            events@.len() == 0,
            raised == old(events)@,
            it.seq() == raised,
            forall|i: int|
                0 <= i < raised.len() ==> call_requires(map_entities, (#[trigger] raised[i], entity_map)),
            forall|i: int, mapped: T|
                0 <= i < raised.len() && #[trigger] maps_to(map_entities, *entity_map, raised[i], mapped)
                    ==> call_requires(serialize, (&mapped,)),
            carries_all_mapped(
                map_entities,
                serialize,
                *entity_map,
                raised.take(it.index() as int),
                channel.id,
                messages@,
            ),
    {
        let ghost at = it.index() as int;
        let ghost sent_before = messages@;
        match map_entities(event, entity_map) {
            Ok(mapped) => {
                assert(maps_to(map_entities, *entity_map, raised[at], mapped));
                match serialize(&mapped) {
                    Ok(payload) => {
                        assert(serializes_to(serialize, mapped, payload));
                        messages.push(ChannelMessage { channel_id: channel.id, payload });
                        proof {
                            let upto = raised.take(at + 1);
                            assert forall|k: int| 0 <= k < upto.len() implies #[trigger] carries_mapped(
                                map_entities,
                                serialize,
                                *entity_map,
                                upto[k],
                                channel.id,
                                messages@[k],
                            ) by {
                                if k < at {
                                    assert(carries_mapped(
                                        map_entities,
                                        serialize,
                                        *entity_map,
                                        raised.take(at)[k],
                                        channel.id,
                                        sent_before[k],
                                    ));
                                }
                            }
                        }
                    },
                    Err(error) => {
                        assert(fails_to_serialize(serialize, mapped, error));
                        assert(mapped_sending_fails_at(
                            map_entities,
                            serialize,
                            *entity_map,
                            raised,
                            channel.id,
                            at,
                            SendError::Serialization(error),
                        ));
                        return Err(SendError::Serialization(error));
                    },
                }
            },
            Err(error) => {
                assert(fails_to_map(map_entities, *entity_map, raised[at], error));
                assert(mapped_sending_fails_at(
                    map_entities,
                    serialize,
                    *entity_map,
                    raised,
                    channel.id,
                    at,
                    SendError::Mapping(error),
                ));
                return Err(SendError::Mapping(error));
            },
        }
    }
    assert(raised.take(raised.len() as int) == raised);
    Ok(messages)
}

/// The events of the authority's own process as the game logic sees them:
/// each one attributed to `SERVER_ID`, in the order in which they were
/// raised.
pub open spec fn local_events<T>(events: Seq<T>) -> Seq<ClientEvent<T>> {
    Seq::new(events.len(), |i: int| ClientEvent { client_id: SERVER_ID, event: events[i] })
}

/// Takes every raised event out of the queue and hands it on as an event
/// from `SERVER_ID`, in the same order. This stands in for the transport
/// where the process is its own server.
pub fn local_resending_system<T>(events: &mut Vec<T>) -> (client_events: Vec<ClientEvent<T>>)
    ensures
        final(events)@.len() == 0,
        client_events@ == local_events(old(events)@),
{
    let mut drained: Vec<T> = Vec::new();
    core::mem::swap(events, &mut drained);
    let ghost raised = drained@;
    let mut client_events: Vec<ClientEvent<T>> = Vec::new();
    for event in it: drained
        invariant
            it.seq() == raised,
            client_events.len() == it.index(),
            forall|i: int|
                0 <= i < it.index() ==> #[trigger] client_events[i] == (ClientEvent {
                    client_id: SERVER_ID,
                    event: raised[i],
                }),
    {
        client_events.push(ClientEvent { client_id: SERVER_ID, event });
    }
    assert(client_events@ =~= local_events(raised));
    client_events
}

/// The payloads that one client has pending on a channel, in the order in
/// which the transport delivered them.
#[derive(Debug, PartialEq, Eq)]
pub struct ClientMessages {
    pub client_id: u64,
    pub messages: Vec<Vec<u8>>,
}

/// What became of one client's payloads: the event that each one held, or
/// `None` where it held none.
#[derive(Debug, PartialEq, Eq)]
pub struct DecodedMessages<T> {
    pub client_id: u64,
    pub outcomes: Vec<Option<T>>,
}

/// The mathematical content of a `DecodedMessages`.
pub struct Decoded<T> {
    pub client_id: u64,
    pub outcomes: Seq<Option<T>>,
}

impl<T> View for DecodedMessages<T> {
    type V = Decoded<T>;

    open spec fn view(&self) -> Decoded<T> {
        Decoded { client_id: self.client_id, outcomes: self.outcomes@ }
    }
}

/// The views of a sequence of decoded batches.
pub open spec fn decoded_views<T>(batches: Seq<DecodedMessages<T>>) -> Seq<Decoded<T>> {
    Seq::new(batches.len(), |i: int| batches[i]@)
}

/// `outcome` is a possible result of `deserialize` on `message`: the event
/// it returned, or `None` where it failed.
pub open spec fn decodes_to<T, E, D: Fn(&Vec<u8>) -> Result<T, E>>(
    deserialize: D,
    message: Vec<u8>,
    outcome: Option<T>,
) -> bool {
    match outcome {
        Some(event) => call_ensures(deserialize, (&message,), Ok(event)),
        None => exists|error: E| call_ensures(deserialize, (&message,), Err(error)),
    }
}

/// `decoded` is a possible result of `deserialize` on each payload of
/// `batch`, one by one, for the same client.
pub open spec fn batch_decodes_to<T, E, D: Fn(&Vec<u8>) -> Result<T, E>>(
    deserialize: D,
    batch: ClientMessages,
    decoded: Decoded<T>,
) -> bool {
    &&& decoded.client_id == batch.client_id
    &&& decoded.outcomes.len() == batch.messages.len()
    &&& forall|i: int|
        0 <= i < batch.messages.len() ==> decodes_to(
            deserialize,
            batch.messages[i],
            #[trigger] decoded.outcomes[i],
        )
}

/// `decoded` is a possible result of `deserialize` on every payload of
/// every client in `inbound`.
pub open spec fn is_decoding_of<T, E, D: Fn(&Vec<u8>) -> Result<T, E>>(
    deserialize: D,
    inbound: Seq<ClientMessages>,
    decoded: Seq<Decoded<T>>,
) -> bool {
    &&& decoded.len() == inbound.len()
    &&& forall|c: int|
        0 <= c < inbound.len() ==> batch_decodes_to(deserialize, inbound[c], #[trigger] decoded[c])
}

/// The events that one client's payloads give: one for each payload that
/// held an event, attributed to that client, in the order of the payloads.
pub open spec fn attributed<T>(client_id: u64, outcomes: Seq<Option<T>>) -> Seq<ClientEvent<T>>
    decreases outcomes.len(),
{
    if outcomes.len() == 0 {
        Seq::empty()
    } else {
        let earlier = attributed(client_id, outcomes.drop_last());
        match outcomes.last() {
            Some(event) => earlier.push(ClientEvent { client_id, event }),
            None => earlier,
        }
    }
}

/// The events that the payloads of all clients give: client by client in
/// the order of `batches`, and for each client as `attributed` says.
pub open spec fn received<T>(batches: Seq<Decoded<T>>) -> Seq<ClientEvent<T>>
    decreases batches.len(),
{
    if batches.len() == 0 {
        Seq::empty()
    } else {
        received(batches.drop_last()) + attributed(batches.last().client_id, batches.last().outcomes)
    }
}

/// Tries `deserialize` on every payload of every client. A payload that
/// fails gives `None` and does not stop the others.
pub fn decode_messages<T, E, D: Fn(&Vec<u8>) -> Result<T, E>>(
    inbound: &Vec<ClientMessages>,
    deserialize: &D,
) -> (decoded: Vec<DecodedMessages<T>>)
    requires
        forall|message: Vec<u8>| call_requires(*deserialize, (&message,)),
    ensures
        is_decoding_of(*deserialize, inbound@, decoded_views(decoded@)),
{
    let mut decoded: Vec<DecodedMessages<T>> = Vec::new();
    let mut c: usize = 0;
    while c < inbound.len()
        invariant
            c <= inbound.len(),
            decoded.len() == c,
            forall|message: Vec<u8>| call_requires(*deserialize, (&message,)),
            forall|k: int|
                0 <= k < c ==> batch_decodes_to(*deserialize, inbound[k], #[trigger] decoded[k]@),
        decreases inbound.len() - c,
    {
        let batch = &inbound[c];
        let mut outcomes: Vec<Option<T>> = Vec::new();
        let mut i: usize = 0;
        while i < batch.messages.len()
            invariant
                i <= batch.messages.len(),
                outcomes.len() == i,
                forall|message: Vec<u8>| call_requires(*deserialize, (&message,)),
                forall|k: int|
                    0 <= k < i ==> decodes_to(*deserialize, batch.messages[k], #[trigger] outcomes[k]),
            decreases batch.messages.len() - i,
        {
            let outcome = match deserialize(&batch.messages[i]) {
                Ok(event) => Some(event),
                Err(_) => None,
            };
            outcomes.push(outcome);
            i = i + 1;
        }
        decoded.push(DecodedMessages { client_id: batch.client_id, outcomes });
        c = c + 1;
    }
    proof {
        let views = decoded_views(decoded@);
        assert forall|k: int| 0 <= k < inbound.len() implies batch_decodes_to(
            *deserialize,
            inbound[k],
            #[trigger] views[k],
        ) by {
            assert(views[k] == decoded[k]@);
        }
    }
    decoded
}

/// Publishes the decoded events: client by client in the order given, each
/// client's events in the order of its payloads and under its id. A payload
/// that held no event leaves no trace.
pub fn attribute_events<T>(decoded: Vec<DecodedMessages<T>>) -> (client_events: Vec<ClientEvent<T>>)
    ensures
        client_events@ == received(decoded_views(decoded@)),
{
    let mut client_events: Vec<ClientEvent<T>> = Vec::new();
    let ghost batches = decoded_views(decoded@);
    let ghost all = decoded@;
    for batch in outer: decoded
        invariant
            outer.seq() == all,
            batches == decoded_views(all),
            client_events@ == received(batches.take(outer.index() as int)),
    {
        let ghost c = outer.index() as int;
        let ghost before = client_events@;
        let client_id = batch.client_id;
        let ghost outcomes = batch.outcomes@;
        assert(batches[c] == batch@);
        for outcome in inner: batch.outcomes
            invariant
                inner.seq() == outcomes,
                client_events@ == before + attributed(client_id, outcomes.take(inner.index() as int)),
        {
            let ghost i = inner.index() as int;
            assert(outcomes.take(i + 1).drop_last() == outcomes.take(i));
            assert(outcomes.take(i + 1).last() == outcome);
            match outcome {
                Some(event) => {
                    client_events.push(ClientEvent { client_id, event });
                },
                None => {},
            }
        }
        assert(outcomes.take(outcomes.len() as int) == outcomes);
        assert(batches.take(c + 1).drop_last() == batches.take(c));
        assert(batches.take(c + 1).last() == batches[c]);
    }
    assert(batches.take(batches.len() as int) == batches);
    client_events
}

/// Turns what the clients sent into events for the game logic. Every
/// payload is deserialized on its own; one that fails is dropped, and the
/// rest go on. What comes out is `received` of some possible decoding of
/// `inbound`.
pub fn receiving_system<T, E, D: Fn(&Vec<u8>) -> Result<T, E>>(
    inbound: &Vec<ClientMessages>,
    deserialize: D,
) -> (client_events: Vec<ClientEvent<T>>)
    requires
        forall|message: Vec<u8>| call_requires(deserialize, (&message,)),
    ensures
        exists|decoded: Seq<Decoded<T>>| #[trigger]
            is_decoding_of(deserialize, inbound@, decoded) && client_events@ == received(decoded),
{
    let decoded = decode_messages(inbound, &deserialize);
    let ghost views = decoded_views(decoded@);
    let client_events = attribute_events(decoded);
    assert(is_decoding_of(deserialize, inbound@, views) && client_events@ == received(views));
    client_events
}

} // verus!
