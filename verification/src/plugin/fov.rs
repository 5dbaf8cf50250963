use crate::combat::attributes::Attributes;
use crate::geometry::Vector2D;
use crate::plugin::actor::RogueAttributeType;
use vstd::prelude::*;

verus! {

/// Marks an actor whose field of view must be recomputed.
#[derive(Debug, Default, Clone, Copy)]
pub struct FieldOfViewDirty;

/// What an actor sees: a radius and the tiles in view and ever seen.
#[derive(Debug)]
pub struct FieldOfView {
    pub radius: i32,
    pub tiles_visible: Vec<Vector2D>,
    pub tiles_revealed: Vec<Vector2D>,
    pub is_dirty: bool,
}


/// The radius for perception `per` and intelligence `intel`: `FieldOfView::MIN_RADIUS` plus
/// `per / 3 + intel / 10` rounded down.
pub open spec fn fov_radius(per: u8, intel: u8) -> int {
    FieldOfView::MIN_RADIUS + (10 * per + 3 * intel) / 30
}

/// The radius for the given perception and intelligence. Equal to the single-precision
/// sum `per / 3. + intel / 10.` truncated: the exact sum is an integer only when both terms
/// are, and otherwise lies at least 1/30 from the next integer.
pub fn radius_for(per: u8, intel: u8) -> (r: i32)
    ensures
        r == fov_radius(per, intel),
{
    let n: i32 = 10 * (per as i32) + 3 * (intel as i32);
    FieldOfView::MIN_RADIUS + n / 30
}

impl FieldOfView {
    pub const MIN_RADIUS: i32 = 2;

    /// No tile is listed twice as visible, nor twice as revealed.
    pub open spec fn wf(&self) -> bool {
        self.tiles_visible@.no_duplicates() && self.tiles_revealed@.no_duplicates()
    }

    /// A dirty field of view with the radius the attributes give and no tiles yet.
    pub fn new(atr: &Attributes<RogueAttributeType>) -> (r: Self)
        ensures
            r.radius == fov_radius(atr.value(RogueAttributeType::Perception), atr.value(RogueAttributeType::Inteligence)),
            r.tiles_visible@.len() == 0,
            r.tiles_revealed@.len() == 0,
            r.is_dirty,
            r.wf(),
    {
        FieldOfView {
            radius: radius_for(atr.get(&RogueAttributeType::Perception), atr.get(&RogueAttributeType::Inteligence)),
            tiles_visible: Vec::new(),
            tiles_revealed: Vec::new(),
            is_dirty: true,
        }
    }

    /// Recomputes the radius and marks the field of view dirty.
    pub fn update(&mut self, atr: &Attributes<RogueAttributeType>)
        ensures
            final(self).radius == fov_radius(atr.value(RogueAttributeType::Perception), atr.value(RogueAttributeType::Inteligence)),
            final(self).tiles_visible@ == old(self).tiles_visible@,
            final(self).tiles_revealed@ == old(self).tiles_revealed@,
            final(self).is_dirty,
            old(self).wf() ==> final(self).wf(),
    {
        self.radius = radius_for(atr.get(&RogueAttributeType::Perception), atr.get(&RogueAttributeType::Inteligence));
        self.is_dirty = true;
    }
}

} // verus!
