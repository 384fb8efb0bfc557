//! The hierarchy reference: a replicated value that names the entity that
//! should be an entity's parent, and the step that applies it.

use vstd::prelude::*;
use bevy::ecs::entity::EntityMap;
use crate::entity::EntityRef;
use crate::entity_map::{entity_map_get, entity_map_view};
use crate::network_entity_map::{lookup, EntityPairs, MapError};

verus! {

/// The entity that should be the parent of the entity that carries this
/// value, in the references of the process that holds the value.
#[derive(Clone, Copy, Debug, PartialEq, Eq, Structural)]
pub struct ParentSync(pub EntityRef);

/// The action that makes `child` a child of `parent` in the live entity
/// graph.
#[derive(Clone, Copy, Debug, PartialEq, Eq, Structural)]
pub struct PushChildren {
    pub parent: EntityRef,
    pub child: EntityRef,
}

/// What mapping `parent` with `entity_map` gives: the value with the
/// reference that the map gives for it, or the error that names the reference
/// where the map does not know it.
pub open spec fn mapped_parent(
    entity_map: Map<EntityRef, EntityRef>,
    parent: ParentSync,
) -> Result<ParentSync, MapError> {
    match lookup(entity_map, parent.0) {
        Ok(reference) => Ok(ParentSync(reference)),
        Err(error) => Err(error),
    }
}

impl ParentSync {
    /// The value that fills the slot before real data arrives. It names no
    /// entity.
    pub fn from_world() -> (parent: ParentSync)
        ensures
            parent.0 == EntityRef::placeholder(),
    {
        ParentSync(EntityRef::new_placeholder())
    }

    /// The value names an entity: it is not the one that only fills the
    /// slot.
    pub open spec fn names_an_entity(self) -> bool {
        self.0 != EntityRef::placeholder()
    }

    /// Whether this is the value that names no entity.
    pub fn is_placeholder(&self) -> (placeholder: bool)
        ensures
            placeholder == !self.names_an_entity(),
    {
        self.0 == EntityRef::new_placeholder()
    }

    /// Maps the reference with `entity_map`. Where the map does not
    /// know the reference, the value stays as it is and the error names the
    /// reference.
    pub fn map_entities(&mut self, entity_map: &EntityMap) -> (mapped: Result<(), MapError>)
        ensures
            match mapped_parent(entity_map_view(*entity_map), *old(self)) {
                Ok(parent) => mapped is Ok && *final(self) == parent,
                Err(error) => mapped == Err::<(), MapError>(error) && *final(self) == *old(self),
            },
    {
        match entity_map_get(entity_map, self.0) {
            Ok(parent) => {
                self.0 = parent;
                Ok(())
            },
            Err(_) => Err(MapError::EntityNotFound(self.0)),
        }
    }
}

/// The actions that apply the changed references: for each changed entity,
/// in the order given, the one that makes it a child of the entity it names.
pub open spec fn reconciliation(changed_parents: Seq<(EntityRef, ParentSync)>) -> Seq<PushChildren> {
    Seq::new(
        changed_parents.len(),
        |i: int| PushChildren { parent: changed_parents[i].1.0, child: changed_parents[i].0 },
    )
}

/// Applies the hierarchy references that changed since the step last ran:
/// one action for each, none for any other entity. It is to run after the
/// entities of the tick have been created, so that each parent exists; a
/// reference that still is the placeholder must not get this far.
pub fn parent_sync_system(changed_parents: &Vec<(EntityRef, ParentSync)>) -> (commands: Vec<PushChildren>)
    requires
        forall|i: int| 0 <= i < changed_parents.len() ==> (#[trigger] changed_parents[i]).1.names_an_entity(),
    ensures
        commands@ == reconciliation(changed_parents@),
        forall|i: int| 0 <= i < commands.len() ==> (#[trigger] commands[i]).parent != EntityRef::placeholder(),
{
    let mut commands: Vec<PushChildren> = Vec::new();
    let mut i: usize = 0;
    while i < changed_parents.len()
        invariant
            i <= changed_parents.len(),
            commands.len() == i,
            forall|k: int| 0 <= k < i ==> #[trigger] commands[k] == reconciliation(changed_parents@)[k],
        decreases changed_parents.len() - i,
    {
        let (entity, parent) = changed_parents[i];
        commands.push(PushChildren { parent: parent.0, child: entity });
        i = i + 1;
    }
    assert(commands@ =~= reconciliation(changed_parents@));
    commands
}

/// A parent that was paired before the step runs is applied by the step:
/// once the pair is in the map, the server's reference maps to the local
/// entity, and the step makes the child a child of that entity.
pub proof fn lemma_paired_parent_is_applied(
    before: EntityPairs,
    server_parent: EntityRef,
    local_parent: EntityRef,
    child: EntityRef,
)
    ensures
        mapped_parent(before.insert(server_parent, local_parent).to_client, ParentSync(server_parent))
            == Ok::<ParentSync, MapError>(ParentSync(local_parent)),
        reconciliation(seq![(child, ParentSync(local_parent))]) == seq![
            PushChildren { parent: local_parent, child },
        ],
{
    assert(reconciliation(seq![(child, ParentSync(local_parent))]) =~= seq![
        PushChildren { parent: local_parent, child },
    ]);
}

/// A parent that has no pair yet is not applied: mapping the reference
/// fails, so there is nothing for the step to act on.
pub proof fn lemma_unpaired_parent_is_not_mapped(pairs: EntityPairs, server_parent: EntityRef)
    requires
        !pairs.to_client.contains_key(server_parent),
    ensures
        mapped_parent(pairs.to_client, ParentSync(server_parent)) == Err::<ParentSync, MapError>(
            MapError::EntityNotFound(server_parent),
        ),
{
}

/// The step holds nothing back: it has exactly one action for each changed
/// reference, and the action at each place is that of the reference at the
/// same place.
pub proof fn lemma_every_change_is_applied(changed_parents: Seq<(EntityRef, ParentSync)>, at: int)
    requires
        0 <= at < changed_parents.len(),
    ensures
        reconciliation(changed_parents).len() == changed_parents.len(),
        reconciliation(changed_parents)[at] == (PushChildren {
            parent: changed_parents[at].1.0,
            child: changed_parents[at].0,
        }),
{
}

} // verus!
