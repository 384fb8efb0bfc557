//! The phases of a tick in which the systems of an event type run, and the
//! connection state that decides which of them run at all.

use vstd::prelude::*;

verus! {

/// How this process stands to a server as a client.
#[derive(Clone, Copy, Debug, PartialEq, Eq, Structural)]
pub enum ClientState {
    /// It has no client connection: it is the server itself, or plays alone.
    NoConnection,
    /// It has asked a server for a connection and has none yet.
    Connecting,
    /// It is connected to a server.
    Connected,
}

/// The connection state of the process at one tick.
#[derive(Clone, Copy, Debug, PartialEq, Eq, Structural)]
pub struct NetworkState {
    /// The client side.
    pub client: ClientState,
    /// Whether this process serves clients.
    pub server: bool,
    /// Whether a world is being simulated.
    pub in_world: bool,
}

/// A phase of the tick, named by the state in which it runs.
#[derive(Clone, Copy, Debug, PartialEq, Eq, Structural)]
pub enum NetworkSet {
    /// Runs while this process is connected to a server as a client.
    ClientConnected,
    /// Runs while this process is the authority over the world: a server, or
    /// a process that plays alone.
    Authoritative,
    /// Runs while this process serves clients.
    Server,
}

/// One of the three systems that every client event type gets.
#[derive(Clone, Copy, Debug, PartialEq, Eq, Structural)]
pub enum EventSystem {
    /// Sends raised events to the server.
    Sending,
    /// Hands raised events on locally where the process is the authority.
    LocalResending,
    /// Publishes what the clients sent.
    Receiving,
}

/// Where and when a system runs.
#[derive(Clone, Copy, Debug, PartialEq, Eq, Structural)]
pub struct SystemConfig {
    pub system: EventSystem,
    /// The phase that the system belongs to.
    pub set: NetworkSet,
    /// Whether the system runs only while a world is being simulated.
    pub in_world_only: bool,
}

impl NetworkSet {
    /// Whether the phase runs in `state`.
    pub open spec fn runs_in(self, state: NetworkState) -> bool {
        match self {
            NetworkSet::ClientConnected => state.client == ClientState::Connected,
            NetworkSet::Authoritative => state.client == ClientState::NoConnection,
            NetworkSet::Server => state.server,
        }
    }

    /// Whether the phase runs in `state`.
    pub fn runs(self, state: &NetworkState) -> (runs: bool)
        ensures
            runs == self.runs_in(*state),
    {
        match self {
            NetworkSet::ClientConnected => state.client == ClientState::Connected,
            NetworkSet::Authoritative => state.client == ClientState::NoConnection,
            NetworkSet::Server => state.server,
        }
    }
}

impl EventSystem {
    /// Where and when the system runs.
    pub open spec fn config_of(self) -> SystemConfig {
        match self {
            EventSystem::Sending => SystemConfig {
                system: self,
                set: NetworkSet::ClientConnected,
                in_world_only: false,
            },
            EventSystem::LocalResending => SystemConfig {
                system: self,
                set: NetworkSet::Authoritative,
                in_world_only: true,
            },
            EventSystem::Receiving => SystemConfig {
                system: self,
                set: NetworkSet::Server,
                in_world_only: false,
            },
        }
    }

    /// Where and when the system runs.
    pub fn config(self) -> (config: SystemConfig)
        ensures
            config == self.config_of(),
    {
        match self {
            EventSystem::Sending => SystemConfig {
                system: self,
                set: NetworkSet::ClientConnected,
                in_world_only: false,
            },
            EventSystem::LocalResending => SystemConfig {
                system: self,
                set: NetworkSet::Authoritative,
                in_world_only: true,
            },
            EventSystem::Receiving => SystemConfig {
                system: self,
                set: NetworkSet::Server,
                in_world_only: false,
            },
        }
    }
}

impl SystemConfig {
    /// Whether the system runs in `state`.
    pub open spec fn runs_in(self, state: NetworkState) -> bool {
        self.set.runs_in(state) && (self.in_world_only ==> state.in_world)
    }

    /// Whether the system runs in `state`.
    pub fn runs(&self, state: &NetworkState) -> (runs: bool)
        ensures
            runs == self.runs_in(*state),
    {
        self.set.runs(state) && (!self.in_world_only || state.in_world)
    }
}

/// The three systems of an event type run in three different phases.
pub proof fn lemma_systems_have_distinct_sets(a: EventSystem, b: EventSystem)
    requires
        a != b,
    ensures
        a.config_of().set != b.config_of().set,
{
}

/// In no state do both the sending and the local path run: an event is
/// never delivered once over the transport and once more locally.
pub proof fn lemma_sending_excludes_local_resending(state: NetworkState)
    ensures
        !(EventSystem::Sending.config_of().runs_in(state) && EventSystem::LocalResending.config_of().runs_in(
            state,
        )),
{
}

} // verus!
