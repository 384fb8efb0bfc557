//! Channel ids for event types: one per registered type, handed out in the
//! order of registration.

use vstd::prelude::*;
use core::marker::PhantomData;

verus! {

/// The channel that world replication itself uses. Event channels come
/// after it.
pub const REPLICATION_CHANNEL_ID: u8 = 0;

/// Counts the event types registered so far in this process. It starts at
/// zero and only grows: nothing but a registration changes it.
pub struct NetworkEventCounter {
    client: u8,
}

/// The channel id of the event type `T`.
pub struct EventChannel<T> {
    pub id: u8,
    pub marker: PhantomData<T>,
}

/// The channel id of the registration with the given ordinal, counted
/// from 1.
pub open spec fn channel_id_of(ordinal: int) -> int {
    REPLICATION_CHANNEL_ID + ordinal
}

impl<T> EventChannel<T> {
    /// The descriptor with the given channel id.
    pub fn new(id: u8) -> (channel: EventChannel<T>)
        ensures
            channel.id == id,
    {
        EventChannel { id, marker: PhantomData }
    }
}

impl Default for NetworkEventCounter {
    fn default() -> (counter: NetworkEventCounter)
        ensures
            counter.registered() == 0,
    {
        NetworkEventCounter { client: 0 }
    }
}

impl NetworkEventCounter {
    /// The number of client event types registered so far.
    pub closed spec fn registered(&self) -> int {
        self.client as int
    }

    /// There is a channel id left for one more event type.
    pub open spec fn has_room(&self) -> bool {
        channel_id_of(self.registered() + 1) <= u8::MAX
    }

    /// The number of client event types registered so far.
    pub fn client(&self) -> (count: u8)
        ensures
            count == self.registered(),
    {
        self.client
    }

    /// Whether one more event type can be registered.
    pub fn can_register(&self) -> (room: bool)
        ensures
            room == self.has_room(),
    {
        self.client < u8::MAX - REPLICATION_CHANNEL_ID
    }

    /// Counts one more event type and returns its channel id.
    pub fn next_channel<T>(&mut self) -> (channel: EventChannel<T>)
        requires
            old(self).has_room(),
        ensures
            final(self).registered() == old(self).registered() + 1,
            channel.id == channel_id_of(final(self).registered()),
    {
        self.client = self.client + 1;
        EventChannel::new(REPLICATION_CHANNEL_ID + self.client)
    }
}

/// Two registrations never share a channel id, and a later registration
/// has the larger one.
pub proof fn lemma_channel_ids_increase(earlier: int, later: int)
    requires
        1 <= earlier < later,
    ensures
        REPLICATION_CHANNEL_ID < channel_id_of(earlier) < channel_id_of(later),
{
}

} // verus!
