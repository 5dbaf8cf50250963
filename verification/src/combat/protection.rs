use crate::combat::attributes::AttributeType;
use crate::combat::damage::DamageKind;
use crate::combat::formula::LinearFormula;
use vstd::prelude::*;

verus! {

/// Protection against one damage kind, scaled by a formula.
#[derive(Debug)]
pub struct Protect<K: DamageKind, A: AttributeType> {
    pub kind: K,
    pub amount_multiplier: LinearFormula<A>,
    pub amount: i32,
}

/// Protective value: the amount of direct damage negated, per damage kind.
#[derive(Debug)]
pub struct Protection<K: DamageKind, A: AttributeType> {
    pub amounts: Vec<Protect<K, A>>,
}

impl<K: DamageKind, A: AttributeType> Protection<K, A> {
    pub fn new(protections: Vec<Protect<K, A>>) -> (r: Self)
        ensures
            r.amounts@ == protections@,
    {
        Protection { amounts: protections }
    }

    /// Appends copies of the protections of `other`.
    pub fn extend(&mut self, other: &Protection<K, A>)
        ensures
            final(self).amounts@.len() == old(self).amounts@.len() + other.amounts@.len(),
            forall|k: int| 0 <= k < old(self).amounts@.len() ==> #[trigger] final(self).amounts@[k] == old(self).amounts@[k],
            forall|k: int| 0 <= k < other.amounts@.len() ==> protect_copy(#[trigger] other.amounts@[k], final(self).amounts@[old(self).amounts@.len() + k]),
    {
        let ghost start = self.amounts@;
        let mut i: usize = 0;
        while i < other.amounts.len()
            invariant
                i <= other.amounts.len(),
                self.amounts@.len() == start.len() + i,
                forall|k: int| 0 <= k < start.len() ==> #[trigger] self.amounts@[k] == start[k],
                forall|k: int| 0 <= k < i ==> protect_copy(#[trigger] other.amounts@[k], self.amounts@[start.len() + k]),
            decreases other.amounts.len() - i,
        {
            let p = other.amounts[i].duplicate();
            self.amounts.push(p);
            i = i + 1;
        }
    }
}

/// `b` equals `a` field by field.
pub open spec fn protect_copy<K: DamageKind, A: AttributeType>(a: Protect<K, A>, b: Protect<K, A>) -> bool {
    &&& b.kind == a.kind
    &&& b.amount == a.amount
    &&& b.amount_multiplier.multipliers@ == a.amount_multiplier.multipliers@
}

impl<K: DamageKind, A: AttributeType> Protect<K, A> {
    /// A copy of this protection.
    pub fn duplicate(&self) -> (r: Self)
        ensures
            protect_copy(*self, r),
    {
        Protect { kind: self.kind, amount_multiplier: self.amount_multiplier.duplicate(), amount: self.amount }
    }
}

/// Sum of the values of the protections of kind `kind`.
pub open spec fn protection_total<K>(values: Seq<(K, i32)>, kind: K) -> int
    decreases values.len(),
{
    if values.len() == 0 {
        0
    } else {
        protection_total(values.drop_last(), kind) + if values.last().0 == kind {
            values.last().1 as int
        } else {
            0
        }
    }
}

/// Whether subtracting the matching values one by one from `raw` stays within `i32`.
pub open spec fn protection_fits<K>(raw: int, values: Seq<(K, i32)>, kind: K) -> bool {
    forall|j: int| 0 <= j <= values.len() ==> i32::MIN <= raw - #[trigger] protection_total(values.subrange(0, j), kind) <= i32::MAX
}

/// Damage left after each protection of the damage's kind negates its value:
/// `values` holds each protection's kind and computed value, in order.
/// Whether subtracting the matching protections one by one from `raw` stays within `i32`
/// (see `protection_fits`).
pub fn protection_fits_check<K: DamageKind>(raw: i32, values: &Vec<(K, i32)>, kind: K) -> (r: bool)
    ensures
        r == protection_fits(raw as int, values@, kind),
{
    let mut d: i64 = raw as i64;
    let mut i: usize = 0;
    assert(values@.subrange(0, 0) =~= Seq::<(K, i32)>::empty());
    while i < values.len()
        invariant
            i <= values.len(),
            d == raw - protection_total(values@.subrange(0, i as int), kind),
            forall|j: int| 0 <= j <= i ==> i32::MIN <= raw - #[trigger] protection_total(values@.subrange(0, j), kind) <= i32::MAX,
        decreases values.len() - i,
    {
        let (k, v) = values[i];
        assert(values@.subrange(0, i + 1).drop_last() == values@.subrange(0, i as int));
        if k.same_kind(&kind) {
            d = d - v as i64;
        }
        if d < i32::MIN as i64 || d > i32::MAX as i64 {
            assert(!(i32::MIN <= raw - protection_total(values@.subrange(0, i + 1), kind) <= i32::MAX));
            return false;
        }
        i = i + 1;
    }
    true
}

pub fn damage_after_protection<K: DamageKind>(raw: i32, values: &Vec<(K, i32)>, kind: K) -> (r: i32)
    requires
        protection_fits(raw as int, values@, kind),
    ensures
        r == raw - protection_total(values@, kind),
{
    let mut d = raw;
    let mut i: usize = 0;
    while i < values.len()
        invariant
            i <= values.len(),
            protection_fits(raw as int, values@, kind),
            d == raw - protection_total(values@.subrange(0, i as int), kind),
        decreases values.len() - i,
    {
        let (k, v) = values[i];
        assert(values@.subrange(0, i + 1).drop_last() == values@.subrange(0, i as int));
        assert(i32::MIN <= raw - protection_total(values@.subrange(0, i + 1), kind) <= i32::MAX);
        if k.same_kind(&kind) {
            d = d - v;
        }
        i = i + 1;
    }
    assert(values@.subrange(0, values.len() as int) == values@);
    d
}

impl<K: DamageKind, A: AttributeType> Default for Protection<K, A> {
    fn default() -> (r: Self)
        ensures
            r.amounts@.len() == 0,
    {
        Protection { amounts: Vec::new() }
    }
}

/// The protections of `s` whose amount is above zero, in order.
pub open spec fn positive_protections<K: DamageKind, A: AttributeType>(s: Seq<Protect<K, A>>) -> Seq<Protect<K, A>>
    decreases s.len(),
{
    if s.len() == 0 {
        Seq::empty()
    } else if s.last().amount > 0 {
        positive_protections(s.drop_last()).push(s.last())
    } else {
        positive_protections(s.drop_last())
    }
}

/// A protection made of those of `amounts` that still protect (amount above zero).
pub fn keep_protecting<K: DamageKind, A: AttributeType>(amounts: Vec<Protect<K, A>>) -> (r: Protection<K, A>)
    ensures
        r.amounts@ == positive_protections(amounts@),
{
    let mut out: Vec<Protect<K, A>> = Vec::new();
    let amounts_len = amounts.len();
    let mut rest = amounts;
    let ghost all = rest@;
    let mut rev: Vec<Protect<K, A>> = Vec::new();
    while rest.len() > 0
        invariant
            rev@.len() + rest@.len() == all.len(),
            forall|k: int| 0 <= k < rest@.len() ==> rest@[k] == all[k],
            forall|k: int| 0 <= k < rev@.len() ==> rev@[k] == all[all.len() - 1 - k],
        decreases rest.len(),
    {
        let p = rest.pop().unwrap();
        rev.push(p);
    }
    let mut i: usize = 0;
    while rev.len() > 0
        invariant
            i + rev@.len() == all.len(),
            all.len() == amounts_len,
            forall|k: int| 0 <= k < rev@.len() ==> rev@[k] == all[all.len() - 1 - k],
            out@ == positive_protections(all.subrange(0, i as int)),
        decreases rev.len(),
    {
        let p = rev.pop().unwrap();
        assert(p == all[i as int]);
        assert(all.subrange(0, i + 1).drop_last() == all.subrange(0, i as int));
        if p.amount > 0 {
            out.push(p);
        }
        i = i + 1;
    }
    assert(all.subrange(0, all.len() as int) == all);
    Protection { amounts: out }
}

} // verus!
