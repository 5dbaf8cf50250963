use crate::geometry::Vector2D;
use crate::inventory::Entity;
use vstd::prelude::*;

verus! {

/// Marks an enemy.
#[derive(Debug, Default, Clone, Copy, PartialEq, Eq)]
pub struct Enemy;

/// Marks the player.
#[derive(Debug, Default, Clone, Copy, PartialEq, Eq)]
pub struct Player;

/// How an actor decides what to do.
#[derive(Debug, Clone, Copy, PartialEq, Eq, Structural, Hash)]
pub enum Behaviour {
    InputControlled,
    RandomMove,
}

impl Default for Behaviour {
    fn default() -> (r: Self)
        ensures
            r == Behaviour::RandomMove,
    {
        Behaviour::RandomMove
    }
}

/// The value recorded last under `name` in `entries`, if any.
pub open spec fn named_value(entries: Seq<(String, i32)>, name: Seq<char>) -> Option<i32>
    decreases entries.len(),
{
    if entries.len() == 0 {
        None
    } else if entries.last().0@ == name {
        Some(entries.last().1)
    } else {
        named_value(entries.drop_last(), name)
    }
}

/// Attributes by name; a name given twice keeps its last value.
#[derive(Debug)]
pub struct Attributes {
    inner: Vec<(String, i32)>,
}

impl Attributes {
    /// The (name, value) pairs as given.
    pub closed spec fn entries(&self) -> Seq<(String, i32)> {
        self.inner@
    }

    /// The value of `name`, if any.
    pub open spec fn value_of(&self, name: Seq<char>) -> Option<i32> {
        named_value(self.entries(), name)
    }

    pub fn new(attribs: Vec<(String, i32)>) -> (r: Self)
        ensures
            r.entries() == attribs@,
    {
        Attributes { inner: attribs }
    }

    /// The value of `name`, if any.
    pub fn get(&self, name: &String) -> (r: Option<i32>)
        ensures
            r == self.value_of(name@),
    {
        let mut i: usize = self.inner.len();
        assert(self.inner@.subrange(0, i as int) == self.inner@);
        while i > 0
            invariant
                i <= self.inner.len(),
                named_value(self.inner@, name@) == named_value(self.inner@.subrange(0, i as int), name@),
            decreases i,
        {
            assert(self.inner@.subrange(0, i as int).drop_last() == self.inner@.subrange(0, i - 1));
            if self.inner[i - 1].0 == *name {
                return Some(self.inner[i - 1].1);
            }
            i = i - 1;
        }
        None
    }
}

/// A request to move actor `id` to `destination`.
#[derive(Debug, Clone, Copy, PartialEq, Eq, Structural)]
pub struct MoveEvent {
    pub id: Entity,
    pub destination: Vector2D,
}

impl MoveEvent {
    pub fn new(id: Entity, destination: Vector2D) -> (r: Self)
        ensures
            r.id == id,
            r.destination == destination,
    {
        MoveEvent { id, destination }
    }
}

} // verus!
