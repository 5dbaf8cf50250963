use std::ops::Range;
use crate::inventory::Entity;
use crate::rng::{gen_range_i32, gen_range_u8, gen_range_i16};
use rand::rngs::StdRng;
use vstd::prelude::*;

verus! {

/// Where an item is worn.
#[derive(Debug, Clone, Copy, PartialEq, Eq, Structural, Hash)]
pub enum ItemType {
    MainHand,
    OffHand,
    Head,
    Neck,
    Body,
    Feet,
    Finger,
}

impl crate::inventory::ItemType for ItemType {
    fn same_type(&self, other: &Self) -> (r: bool) {
        *self == *other
    }
}

impl Default for ItemType {
    fn default() -> (r: Self)
        ensures
            r == ItemType::MainHand,
    {
        ItemType::MainHand
    }
}

/// Links an actor to the rendition of an item it wears.
#[derive(Debug, PartialEq, Eq, Clone, Copy)]
pub struct EquipedRendition {
    pub item_render_entity: Entity,
}

/// Links a rendition to the item it shows.
#[derive(Debug, PartialEq, Eq, Clone, Copy)]
pub struct EquipedRenderedItem {
    pub item: Entity,
}

/// Links a worn item to the actor wearing it.
#[derive(Debug)]
pub struct ItemEquipedOwned {
    pub actor: Entity,
}

/// Quality of an item, which scales its values.
#[derive(Debug, Clone, Copy, PartialEq, Eq, Structural, Hash)]
pub enum Quality {
    Broken,
    Damaged,
    Normal,
    Masterwork,
    Artifact,
}

/// The quality a draw `d` of `0..100` gives: 5 in 100 broken, 20 damaged, 50 normal,
/// 20 masterwork and 5 artifact.
pub open spec fn quality_of_draw(d: int) -> Quality {
    if d < 5 {
        Quality::Broken
    } else if d < 25 {
        Quality::Damaged
    } else if d < 75 {
        Quality::Normal
    } else if d < 95 {
        Quality::Masterwork
    } else {
        Quality::Artifact
    }
}

impl Default for Quality {
    fn default() -> (r: Self)
        ensures
            r == Quality::Normal,
    {
        Quality::Normal
    }
}

impl Quality {
    /// The quality a draw of `0..100` gives: 0..5 broken, 5..25 damaged, 25..75 normal,
    /// 75..95 masterwork, from 95 artifact.
    pub fn from_draw(d: i32) -> (r: Self)
        ensures
            r == quality_of_draw(d as int),
    {
        if d < 5 {
            Quality::Broken
        } else if d < 25 {
            Quality::Damaged
        } else if d < 75 {
            Quality::Normal
        } else if d < 95 {
            Quality::Masterwork
        } else {
            Quality::Artifact
        }
    }

    /// A quality left to chance: a draw of `0..100` read by `from_draw`.
    pub fn roll(rng: &mut StdRng) -> (r: Self)
        ensures
            exists|d: int| 0 <= d < 100 && r == quality_of_draw(d),
    {
        let d = gen_range_i32(rng, 0, 100);
        Self::from_draw(d)
    }

    /// Percentages a value is scaled by: broken 20..60, damaged 60..90, normal 90..110,
    /// masterwork 110..140, artifact 140..200.
    pub fn get_multiplier(&self) -> (r: Range<u8>)
        ensures
            (r.start, r.end) == self.get_multiplier_spec(),
    {
        match self {
            Quality::Broken => 20..60,
            Quality::Damaged => 60..90,
            Quality::Normal => 90..110,
            Quality::Masterwork => 110..140,
            Quality::Artifact => 140..200,
        }
    }

    /// Percentages for values where less is better: broken 140..200, damaged 110..140,
    /// normal 90..110, masterwork 60..90, artifact 20..60.
    pub fn get_multiplier_inverse(&self) -> (r: Range<u8>)
        ensures
            (r.start, r.end) == self.get_multiplier_inverse_spec(),
    {
        match self {
            Quality::Broken => 140..200,
            Quality::Damaged => 110..140,
            Quality::Normal => 90..110,
            Quality::Masterwork => 60..90,
            Quality::Artifact => 20..60,
        }
    }

    /// The percentages for direct (`is_direct`) or inverse scaling.
    pub fn percent_range(&self, is_direct: bool) -> (r: Range<u8>)
        ensures
            is_direct ==> (r.start, r.end) == self.get_multiplier_spec(),
            !is_direct ==> (r.start, r.end) == self.get_multiplier_inverse_spec(),
    {
        if is_direct {
            self.get_multiplier()
        } else {
            self.get_multiplier_inverse()
        }
    }

    /// Bounds of the percentages a value is scaled by.
    pub open spec fn get_multiplier_spec(&self) -> (u8, u8) {
        match *self {
            Quality::Broken => (20u8, 60u8),
            Quality::Damaged => (60u8, 90u8),
            Quality::Normal => (90u8, 110u8),
            Quality::Masterwork => (110u8, 140u8),
            Quality::Artifact => (140u8, 200u8),
        }
    }

    /// Bounds of the percentages for values where less is better.
    pub open spec fn get_multiplier_inverse_spec(&self) -> (u8, u8) {
        match *self {
            Quality::Broken => (140u8, 200u8),
            Quality::Damaged => (110u8, 140u8),
            Quality::Normal => (90u8, 110u8),
            Quality::Masterwork => (60u8, 90u8),
            Quality::Artifact => (20u8, 60u8),
        }
    }

    /// The quality's name.
    pub fn name(&self) -> (r: &'static str)
        ensures
            r@ == match *self {
                Quality::Broken => "Broken"@,
                Quality::Damaged => "Damaged"@,
                Quality::Normal => "Normal"@,
                Quality::Masterwork => "Masterwork"@,
                Quality::Artifact => "Artifact"@,
            },
    {
        match self {
            Quality::Broken => "Broken",
            Quality::Damaged => "Damaged",
            Quality::Normal => "Normal",
            Quality::Masterwork => "Masterwork",
            Quality::Artifact => "Artifact",
        }
    }
}

/// `value * percent / 100` rounded toward zero, capped at `u8::MAX`.
pub open spec fn scale_u8_spec(value: u8, percent: u8) -> int {
    let q = (value as int) * (percent as int) / 100;
    if q > u8::MAX as int {
        u8::MAX as int
    } else {
        q
    }
}

/// `value * percent / 100` rounded toward zero, kept within `i16`.
pub open spec fn scale_i16_spec(value: i16, percent: u8) -> int {
    let p = (value as int) * (percent as int);
    let q = if p >= 0 { p / 100 } else { -((-p) / 100) };
    if q > i16::MAX as int {
        i16::MAX as int
    } else if q < i16::MIN as int {
        i16::MIN as int
    } else {
        q
    }
}

/// `value * percent / 100`, rounded toward zero and capped at `u8::MAX`. This is exactly
/// the single-precision product `value * percent / 100.` truncated to `u8`: the product is
/// exact and the quotient cannot round across an integer.
pub fn scale_u8(value: u8, percent: u8) -> (r: u8)
    ensures
        r == scale_u8_spec(value, percent),
{
    assert((value as int) * (percent as int) <= 255 * 255) by (nonlinear_arith)
        requires
            0 <= value <= 255,
            0 <= percent <= 255,
    ;
    let p: u32 = (value as u32) * (percent as u32);
    let q: u32 = p / 100;
    if q > 255 {
        255
    } else {
        q as u8
    }
}

/// `value * percent / 100`, rounded toward zero and kept within `i16`. This is exactly the
/// single-precision product `value * percent / 100.` truncated to `i16`: the product is
/// exact and the quotient cannot round across an integer.
pub fn scale_i16(value: i16, percent: u8) -> (r: i16)
    ensures
        r == scale_i16_spec(value, percent),
{
    assert(-32768 * 255 <= (value as int) * (percent as int) <= 32767 * 255) by (nonlinear_arith)
        requires
            -32768 <= value <= 32767,
            0 <= percent <= 255,
    ;
    let p: i32 = (value as i32) * (percent as i32);
    let q: i32 = p / 100;
    if q > 32767 {
        32767
    } else if q < -32768 {
        -32768
    } else {
        q as i16
    }
}

/// A value of `start..end` left to chance, or `start` when that range is empty.
pub fn pick_scaled_u8(start: u8, end: u8, rng: &mut StdRng) -> (r: u8)
    ensures
        start < end ==> start <= r < end,
        start >= end ==> r == start,
{
    if start < end {
        gen_range_u8(rng, start, end)
    } else {
        start
    }
}

/// A value of `start..end` left to chance, or `start` when that range is empty.
pub fn pick_scaled_i16(start: i16, end: i16, rng: &mut StdRng) -> (r: i16)
    ensures
        start < end ==> start <= r < end,
        start >= end ==> r == start,
{
    if start < end {
        gen_range_i16(rng, start, end)
    } else {
        start
    }
}

/// A value of `start..end` left to chance, or `start` when that range is empty.
pub fn pick_scaled_i32(start: i32, end: i32, rng: &mut StdRng) -> (r: i32)
    ensures
        start < end ==> start <= r < end,
        start >= end ==> r == start,
{
    if start < end {
        gen_range_i32(rng, start, end)
    } else {
        start
    }
}

/// The bounds of a scaled range, lower first.
pub fn ordered_bounds(a: i32, b: i32) -> (r: (i32, i32))
    ensures
        r == if a > b { (b, a) } else { (a, b) },
{
    if a > b {
        (b, a)
    } else {
        (a, b)
    }
}

/// Marks the node that shows an actor's inventory.
#[derive(Debug, Default, Clone, Copy, PartialEq, Eq)]
pub struct InventoryDisplay;

} // verus!
