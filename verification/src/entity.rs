//! Entities of the world.

use vstd::prelude::*;

verus! {

/// The id of an entity in the world; -1 while none is known.
#[derive(Debug)]
pub struct EntityId {
    value: i32,
}

impl View for EntityId {
    type V = i32;

    open spec fn view(&self) -> i32 {
        self.spec_value()
    }
}

impl EntityId {
    /// The id held.
    pub closed spec fn spec_value(&self) -> i32 {
        self.value
    }

    /// An id of -1: no entity known yet.
    pub fn negative() -> (id: Self)
        ensures
            id@ == -1,
    {
        EntityId { value: -1 }
    }

    /// The id held.
    pub fn get(&self) -> (v: i32)
        ensures
            v == self@,
    {
        self.value
    }

    /// Holds the given id from now on.
    pub fn set(&mut self, entity_id: i32)
        ensures
            final(self)@ == entity_id,
    {
        self.value = entity_id;
    }
}

} // verus!
