//! Contacts reported by the physics engine.

use vstd::prelude::*;

verus! {

/// A collision reported by the physics engine between two colliders, each
/// named by its entity id.
#[derive(Clone, Copy, Debug, PartialEq, Eq, Structural)]
pub enum CollisionEvent {
    Started(u64, u64),
    Stopped(u64, u64),
}

/// Whether `e` is the start of a contact that involves `id`.
pub open spec fn starts_with(e: CollisionEvent, id: u64) -> bool {
    match e {
        CollisionEvent::Started(a, b) => a == id || b == id,
        CollisionEvent::Stopped(_, _) => false,
    }
}

impl CollisionEvent {
    /// Whether this event is the start of a contact that involves `id`.
    pub fn starts_with(&self, id: u64) -> (r: bool)
        ensures
            r == starts_with(*self, id),
    {
        match self {
            CollisionEvent::Started(a, b) => *a == id || *b == id,
            CollisionEvent::Stopped(_, _) => false,
        }
    }
}

} // verus!
