use crate::geometry::Vector2D;
use crate::inventory::Entity;
use crate::plugin::actor::Team;
use vstd::prelude::*;

verus! {

/// An actor asks to act towards the tile at offset `delta`.
#[derive(Debug, Clone, Copy, PartialEq, Eq, Structural)]
pub struct ActEvent {
    pub id: Entity,
    pub delta: Vector2D,
}

/// An actor of `team` moved from one tile to another.
#[derive(Debug, Clone, Copy, PartialEq, Eq, Structural)]
pub struct MoveEvent {
    pub actor: Entity,
    pub team: Team,
    pub from: Vector2D,
    pub to: Vector2D,
}

/// The camera should center on `position`.
#[derive(Debug, Clone, Copy, PartialEq, Eq, Structural)]
pub struct CameraFocusEvent {
    pub position: Vector2D,
}

impl CameraFocusEvent {
    pub fn new(position: Vector2D) -> (r: Self)
        ensures
            r.position == position,
    {
        CameraFocusEvent { position }
    }
}

} // verus!
