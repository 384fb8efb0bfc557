//! Client-to-server event replication and hierarchy synchronisation for a
//! simulated world, with the mapping of entity references between the
//! two sides.
//!
//! - [`entity`]: entity references.
//! - [`entity_map`]: what is taken for granted about the engine's entity map.
//! - [`network_entity_map`]: the two-way map between a client's references
//!   and the server's.
//! - [`event_channel`]: channel ids, handed out in the order of registration.
//! - [`sets`]: the phases of a tick and the connection states in which they
//!   run.
//! - [`client_event`]: registration of event types, and the sending, local
//!   and receiving paths.
//! - [`client_event_lemmas`]: what holds of those paths.
//! - [`parent_sync`]: the replicated parent reference and the step that
//!   applies it.
//! - [`human`]: the scenes of the human race.

pub mod client_event;
pub mod client_event_lemmas;
pub mod entity;
pub mod entity_map;
pub mod event_channel;
pub mod human;
pub mod network_entity_map;
pub mod parent_sync;
pub mod sets;
