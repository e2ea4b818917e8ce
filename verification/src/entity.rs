//! Entities and their identifiers.

use vstd::prelude::*;
use vstd::std_specs::cmp::PartialEqSpecImpl;

verus! {

/// Identifier of an entity: a value used as a lookup key and nothing more.
#[derive(Hash, Eq, PartialEq, Copy, Clone, Debug, Structural)]
pub struct EntityId(pub u32);

#[derive(PartialEq, Eq, Copy, Clone, Debug, Structural)]
pub enum EntityKind {
    Baddie,
    Wall,
    Bullet,
    Cannon,
    /// For proxies: an entity built from an id alone, to look another one up.
    UNDEFINED,
}

/// Hands out identifiers, each one greater than all it handed out before.
pub struct IdGenerator {
    pub last: u32,
}

impl IdGenerator {
    /// A generator that has handed out nothing yet. Its first identifier is 1.
    pub fn new() -> (ids: Self)
        ensures
            ids.last == 0,
    {
        IdGenerator { last: 0 }
    }

    /// The next identifier: one more than the last.
    pub fn generate_id(&mut self) -> (id: EntityId)
        requires
            old(self).last < u32::MAX,
        ensures
            id.0 == old(self).last + 1,
            final(self).last == id.0,
    {
        self.last = self.last + 1;
        EntityId(self.last)
    }
}

/// An entity that exists in the world. Two entities are the same entity when
/// their identifiers are equal, whatever their kinds.
#[derive(Clone, Copy, Debug)]
pub struct Entity {
    pub id: EntityId,
    pub kind: EntityKind,
}

impl PartialEq for Entity {
    fn eq(&self, other: &Self) -> (same: bool) {
        self.id.0 == other.id.0
    }
}

impl PartialEqSpecImpl for Entity {
    open spec fn obeys_eq_spec() -> bool {
        true
    }

    open spec fn eq_spec(&self, other: &Self) -> bool {
        self.id.0 == other.id.0
    }
}

impl Eq for Entity {

}

impl Entity {
    /// Creates a new entity, with an identifier that `ids` has not given before.
    pub fn new(kind: EntityKind, ids: &mut IdGenerator) -> (entity: Self)
        requires
            old(ids).last < u32::MAX,
        ensures
            entity.kind == kind,
            entity.id.0 == old(ids).last + 1,
            final(ids).last == entity.id.0,
    {
        Entity { id: ids.generate_id(), kind }
    }

    /// Creates a dummy entity that can stand for the one with this identifier
    /// wherever entities are compared.
    pub fn from_id(id: EntityId) -> (entity: Self)
        ensures
            entity.id == id,
            entity.kind == EntityKind::UNDEFINED,
    {
        Entity { id, kind: EntityKind::UNDEFINED }
    }

    /// Returns the entity's identifier.
    pub fn get_id(&self) -> (id: EntityId)
        ensures
            id == self.id,
    {
        self.id
    }

    pub fn get_kind(&self) -> (kind: &EntityKind)
        ensures
            *kind == self.kind,
    {
        &self.kind
    }
}

} // verus!
