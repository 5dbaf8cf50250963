use crate::map::Tile;
use vstd::prelude::*;

verus! {

/// Action points of a walking actor: it acts once `current` reaches the turn-ready amount.
#[derive(Debug, Default, Clone, Copy, PartialEq, Eq, Structural, Hash)]
pub struct ActionPoints {
    turn_ready_ap: u32,
    current: u32,
    pub increment: u32,
}

impl ActionPoints {
    /// Points gathered per turn before a walker may move.
    pub const DEFAULT_TURN_READY_AP: u32 = 1000;

    pub closed spec fn turn_ready_spec(&self) -> u32 {
        self.turn_ready_ap
    }

    pub closed spec fn current_spec(&self) -> u32 {
        self.current
    }

    pub closed spec fn increment_spec(&self) -> u32 {
        self.increment
    }

    /// The same points with `current` replaced.
    pub closed spec fn with_current(&self, current: u32) -> Self {
        ActionPoints { current, ..*self }
    }

    /// Points with no amount gathered, gathering `increment` per turn.
    pub fn new(increment: u32) -> (r: Self)
        ensures
            r.turn_ready_spec() == ActionPoints::DEFAULT_TURN_READY_AP,
            r.current_spec() == 0,
            r.increment_spec() == increment,
    {
        ActionPoints { turn_ready_ap: ActionPoints::DEFAULT_TURN_READY_AP, current: 0, increment }
    }

    pub fn turn_ready_to_act(&self) -> (r: u32)
        ensures
            r == self.turn_ready_spec(),
    {
        self.turn_ready_ap
    }

    pub fn current(&self) -> (r: u32)
        ensures
            r == self.current_spec(),
    {
        self.current
    }

    /// Gathers one increment and returns the new amount.
    pub fn current_add(&mut self) -> (r: u32)
        requires
            old(self).current_spec() + old(self).increment_spec() <= u32::MAX,
        ensures
            r == old(self).current_spec() + old(self).increment_spec(),
            *final(self) == old(self).with_current(r),
    {
        self.current = self.current + self.increment;
        self.current
    }

    /// Gathers `breath` points (the increment scaled by elapsed time) and returns the new
    /// amount.
    pub fn current_add_delta(&mut self, breath: u32) -> (r: u32)
        requires
            old(self).current_spec() + breath <= u32::MAX,
        ensures
            r == old(self).current_spec() + breath,
            *final(self) == old(self).with_current(r),
    {
        self.current = self.current + breath;
        self.current
    }

    /// Spends `cost` points and returns the new amount.
    pub fn current_minus(&mut self, cost: u32) -> (r: u32)
        requires
            cost <= old(self).current_spec(),
        ensures
            r == old(self).current_spec() - cost,
            *final(self) == old(self).with_current(r),
    {
        self.current = self.current - cost;
        self.current
    }
}

/// Marks an actor that takes up its tile, so that no other may enter it.
#[derive(Debug, Default, Clone, Copy, PartialEq, Eq, Hash)]
pub struct OcupiesTile;

/// A tile of the map as an entity: whether actors may walk onto it.
#[derive(Debug, Default, Clone, Copy, PartialEq, Eq, Structural, Hash)]
pub struct MapTile {
    pub is_passable: bool,
}

impl MapTile {
    /// The entity for a map cell: walls block the way, floor does not.
    pub fn for_tile(tile: Tile) -> (r: Self)
        ensures
            r.is_passable == (tile == Tile::Floor),
    {
        match tile {
            Tile::Wall => MapTile { is_passable: false },
            Tile::Floor => MapTile { is_passable: true },
        }
    }
}

} // verus!
