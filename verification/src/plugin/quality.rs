use crate::combat::action_cost::ActionCost;
use crate::combat::attributes::{AttributeType, Attributes};
use crate::combat::block::Block;
use crate::combat::damage::DamageKind;
use crate::combat::evasion::Evasion;
use crate::combat::formula::{LinearFormula, Multiplier};
use crate::combat::rate::Rate;
use crate::combat::resistance::{Resist, Resistance};
use crate::plugin::item::{pick_scaled_i16, pick_scaled_u8, scale_i16, scale_i16_spec, scale_u8, scale_u8_spec, Quality};
use rand::rngs::StdRng;
use vstd::prelude::*;

verus! {

/// The percent bounds of `q`: its multiplier when `is_direct`, else its inverse.
pub open spec fn quality_bounds(q: Quality, is_direct: bool) -> (u8, u8) {
    if is_direct {
        q.get_multiplier_spec()
    } else {
        q.get_multiplier_inverse_spec()
    }
}

/// `r` is a value that a quality can turn `v` into: one of `v * lo% .. v * hi%` (both
/// truncated), or the lower end when that range is empty.
pub open spec fn u8_mutation(v: u8, is_direct: bool, q: Quality, r: u8) -> bool {
    let (lo, hi) = quality_bounds(q, is_direct);
    let s = scale_u8_spec(v, lo);
    let e = scale_u8_spec(v, hi);
    if s < e {
        s <= r < e
    } else {
        r == s
    }
}

/// As `u8_mutation`, for `i16` values.
pub open spec fn i16_mutation(v: i16, is_direct: bool, q: Quality, r: i16) -> bool {
    let (lo, hi) = quality_bounds(q, is_direct);
    let s = scale_i16_spec(v, lo);
    let e = scale_i16_spec(v, hi);
    if s < e {
        s <= r < e
    } else {
        r == s
    }
}

/// `r` is `f` with each weight turned by the quality, attributes unchanged.
pub open spec fn formula_mutation<A: AttributeType>(f: Seq<Multiplier<A>>, is_direct: bool, q: Quality, r: Seq<Multiplier<A>>) -> bool {
    &&& r.len() == f.len()
    &&& forall|k: int|
        0 <= k < f.len() ==> (#[trigger] r[k]).attribute == f[k].attribute && u8_mutation(
            f[k].multiplier,
            is_direct,
            q,
            r[k].multiplier,
        )
}

/// The resistances whose turned percentage `m[k]` is above zero, with that percentage.
pub open spec fn kept_resists<K: DamageKind>(amounts: Seq<Resist<K>>, m: Seq<u8>) -> Seq<Resist<K>>
    decreases amounts.len(),
{
    if amounts.len() == 0 || m.len() != amounts.len() {
        Seq::empty()
    } else {
        let rest = kept_resists(amounts.drop_last(), m.drop_last());
        if m.last() > 0 {
            rest.push(Resist { kind: amounts.last().kind, percent: m.last() })
        } else {
            rest
        }
    }
}

/// The attributes whose turned amount `m[k]` is above zero, with that amount.
pub open spec fn kept_attributes<A>(entries: Seq<(A, u8)>, m: Seq<u8>) -> Seq<(A, u8)>
    decreases entries.len(),
{
    if entries.len() == 0 || m.len() != entries.len() {
        Seq::empty()
    } else {
        let rest = kept_attributes(entries.drop_last(), m.drop_last());
        if m.last() > 0 {
            rest.push((entries.last().0, m.last()))
        } else {
            rest
        }
    }
}

/// Turns a `u8` stat by the quality: a value of `v * lo% .. v * hi%` left to chance.
pub fn mutate_u8(v: u8, is_direct: bool, quality: &Quality, rng: &mut StdRng) -> (r: u8)
    ensures
        u8_mutation(v, is_direct, *quality, r),
{
    let range = quality.percent_range(is_direct);
    let s = scale_u8(v, range.start);
    let e = scale_u8(v, range.end);
    pick_scaled_u8(s, e, rng)
}

/// Turns an `i16` stat by the quality.
pub fn mutate_i16(v: i16, is_direct: bool, quality: &Quality, rng: &mut StdRng) -> (r: i16)
    ensures
        i16_mutation(v, is_direct, *quality, r),
{
    let range = quality.percent_range(is_direct);
    let s = scale_i16(v, range.start);
    let e = scale_i16(v, range.end);
    pick_scaled_i16(s, e, rng)
}

/// Turns a weight's multiplier by the quality.
pub fn mutate_multiplier<A: AttributeType>(m: &Multiplier<A>, is_direct: bool, quality: &Quality, rng: &mut StdRng) -> (r: Multiplier<A>)
    ensures
        r.attribute == m.attribute,
        u8_mutation(m.multiplier, is_direct, *quality, r.multiplier),
{
    Multiplier { multiplier: mutate_u8(m.multiplier, is_direct, quality, rng), attribute: m.attribute }
}

/// Turns each weight of a formula by the quality.
pub fn mutate_formula<A: AttributeType>(f: &LinearFormula<A>, is_direct: bool, quality: &Quality, rng: &mut StdRng) -> (r: LinearFormula<A>)
    ensures
        formula_mutation(f.multipliers@, is_direct, *quality, r.multipliers@),
{
    let mut out: Vec<Multiplier<A>> = Vec::new();
    let mut i: usize = 0;
    while i < f.multipliers.len()
        invariant
            i <= f.multipliers.len(),
            out.len() == i,
            forall|k: int|
                0 <= k < i ==> (#[trigger] out@[k]).attribute == f.multipliers@[k].attribute
                    && u8_mutation(f.multipliers@[k].multiplier, is_direct, *quality, out@[k].multiplier),
        decreases f.multipliers.len() - i,
    {
        let m = mutate_multiplier(&f.multipliers[i], is_direct, quality, rng);
        out.push(m);
        i = i + 1;
    }
    LinearFormula { multipliers: out }
}

/// Turns a chance by the quality: its amount and its formula.
pub fn mutate_rate<A: AttributeType>(rate: &Rate<A>, is_direct: bool, quality: &Quality, rng: &mut StdRng) -> (r: Rate<A>)
    ensures
        u8_mutation(rate.amount, is_direct, *quality, r.amount),
        formula_mutation(rate.multiplier.multipliers@, is_direct, *quality, r.multiplier.multipliers@),
{
    Rate {
        amount: mutate_u8(rate.amount, is_direct, quality, rng),
        multiplier: mutate_formula(&rate.multiplier, is_direct, quality, rng),
    }
}

/// Turns a cost by the quality the other way round: a better item costs less.
pub fn mutate_action_cost<A: AttributeType>(cost: &ActionCost<A>, is_direct: bool, quality: &Quality, rng: &mut StdRng) -> (r: ActionCost<A>)
    ensures
        i16_mutation(cost.cost, !is_direct, *quality, r.cost),
        formula_mutation(cost.multiplier_inverted.multipliers@, !is_direct, *quality, r.multiplier_inverted.multipliers@),
{
    ActionCost {
        cost: mutate_i16(cost.cost, !is_direct, quality, rng),
        multiplier_inverted: mutate_formula(&cost.multiplier_inverted, !is_direct, quality, rng),
    }
}

/// Turns an evasion by the quality: its cost and its chance.
pub fn mutate_evasion<A: AttributeType>(ev: &Evasion<A>, is_direct: bool, quality: &Quality, rng: &mut StdRng) -> (r: Evasion<A>)
    ensures
        i16_mutation(ev.cost.cost, !is_direct, *quality, r.cost.cost),
        formula_mutation(ev.cost.multiplier_inverted.multipliers@, !is_direct, *quality, r.cost.multiplier_inverted.multipliers@),
        u8_mutation(ev.chance.amount, is_direct, *quality, r.chance.amount),
        formula_mutation(ev.chance.multiplier.multipliers@, is_direct, *quality, r.chance.multiplier.multipliers@),
{
    Evasion {
        cost: mutate_action_cost(&ev.cost, is_direct, quality, rng),
        chance: mutate_rate(&ev.chance, is_direct, quality, rng),
    }
}

/// Turns a block by the quality: its cost and its chance; the kinds it blocks stay.
pub fn mutate_block<K: DamageKind, A: AttributeType>(b: &Block<K, A>, is_direct: bool, quality: &Quality, rng: &mut StdRng) -> (r: Block<K, A>)
    ensures
        r.block_type@ == b.block_type@,
        i16_mutation(b.cost.cost, !is_direct, *quality, r.cost.cost),
        formula_mutation(b.cost.multiplier_inverted.multipliers@, !is_direct, *quality, r.cost.multiplier_inverted.multipliers@),
        u8_mutation(b.chance.amount, is_direct, *quality, r.chance.amount),
        formula_mutation(b.chance.multiplier.multipliers@, is_direct, *quality, r.chance.multiplier.multipliers@),
{
    let mut kinds: Vec<K> = Vec::new();
    let mut i: usize = 0;
    while i < b.block_type.len()
        invariant
            i <= b.block_type.len(),
            kinds@ == b.block_type@.subrange(0, i as int),
        decreases b.block_type.len() - i,
    {
        kinds.push(b.block_type[i]);
        i = i + 1;
    }
    assert(b.block_type@.subrange(0, b.block_type.len() as int) == b.block_type@);
    Block {
        block_type: kinds,
        cost: mutate_action_cost(&b.cost, is_direct, quality, rng),
        chance: mutate_rate(&b.chance, is_direct, quality, rng),
    }
}

/// Turns a resistance by the quality, keeping its kind.
pub fn mutate_resist<K: DamageKind>(res: &Resist<K>, is_direct: bool, quality: &Quality, rng: &mut StdRng) -> (r: Resist<K>)
    ensures
        r.kind == res.kind,
        u8_mutation(res.percent, is_direct, *quality, r.percent),
{
    Resist { kind: res.kind, percent: mutate_u8(res.percent, is_direct, quality, rng) }
}

/// Turns each resistance by the quality and drops those turned to zero.
pub fn mutate_resistance<K: DamageKind>(res: &Resistance<K>, is_direct: bool, quality: &Quality, rng: &mut StdRng) -> (r: Resistance<K>)
    ensures
        exists|m: Seq<u8>|
            m.len() == res.amounts@.len()
            && (forall|k: int| 0 <= k < m.len() ==> u8_mutation(#[trigger] res.amounts@[k].percent, is_direct, *quality, m[k]))
            && r.amounts@ == kept_resists(res.amounts@, m),
{
    let mut out: Vec<Resist<K>> = Vec::new();
    let ghost mut m: Seq<u8> = Seq::empty();
    let mut i: usize = 0;
    while i < res.amounts.len()
        invariant
            i <= res.amounts.len(),
            m.len() == i,
            forall|k: int| 0 <= k < i ==> u8_mutation(#[trigger] res.amounts@[k].percent, is_direct, *quality, m[k]),
            out@ == kept_resists(res.amounts@.subrange(0, i as int), m),
        decreases res.amounts.len() - i,
    {
        let t = mutate_resist(&res.amounts[i], is_direct, quality, rng);
        proof {
            let prev = m;
            m = m.push(t.percent);
            assert(res.amounts@.subrange(0, i + 1).drop_last() == res.amounts@.subrange(0, i as int));
            assert(m.drop_last() == prev);
        }
        if t.percent > 0 {
            out.push(t);
        }
        i = i + 1;
    }
    assert(res.amounts@.subrange(0, res.amounts.len() as int) == res.amounts@);
    Resistance { amounts: out }
}

/// Turns each attribute by the quality and drops those turned to zero.
pub fn mutate_attributes<A: AttributeType>(atr: &Attributes<A>, is_direct: bool, quality: &Quality, rng: &mut StdRng) -> (r: Attributes<A>)
    ensures
        exists|m: Seq<u8>|
            m.len() == atr.entries().len()
            && (forall|k: int| 0 <= k < m.len() ==> u8_mutation(#[trigger] atr.entries()[k].1, is_direct, *quality, m[k]))
            && r.entries() == kept_attributes(atr.entries(), m),
{
    let entries = atr.to_list();
    let mut out: Vec<(A, u8)> = Vec::new();
    let ghost mut m: Seq<u8> = Seq::empty();
    let mut i: usize = 0;
    while i < entries.len()
        invariant
            i <= entries.len(),
            entries@ == atr.entries(),
            m.len() == i,
            forall|k: int| 0 <= k < i ==> u8_mutation(#[trigger] atr.entries()[k].1, is_direct, *quality, m[k]),
            out@ == kept_attributes(entries@.subrange(0, i as int), m),
        decreases entries.len() - i,
    {
        let (a, v) = entries[i];
        let t = mutate_u8(v, is_direct, quality, rng);
        proof {
            let prev = m;
            m = m.push(t);
            assert(entries@.subrange(0, i + 1).drop_last() == entries@.subrange(0, i as int));
            assert(m.drop_last() == prev);
        }
        if t > 0 {
            out.push((a, t));
        }
        i = i + 1;
    }
    assert(entries@.subrange(0, entries.len() as int) == entries@);
    Attributes::from_list(out)
}

} // verus!
