use crate::combat::damage::DamageKind;
use vstd::prelude::*;

verus! {

/// Resistance to one damage kind, in percent: 100 resists it fully.
#[derive(Debug, Clone, Copy)]
pub struct Resist<K: DamageKind> {
    pub kind: K,
    pub percent: u8,
}

/// Resistances, per damage kind.
#[derive(Debug)]
pub struct Resistance<K: DamageKind> {
    pub amounts: Vec<Resist<K>>,
}

/// Sum of the percentages of the resistances of kind `kind`.
pub open spec fn resist_total<K: DamageKind>(amounts: Seq<Resist<K>>, kind: K) -> int
    decreases amounts.len(),
{
    if amounts.len() == 0 {
        0
    } else {
        resist_total(amounts.drop_last(), kind) + if amounts.last().kind == kind {
            amounts.last().percent as int
        } else {
            0
        }
    }
}

proof fn lemma_resist_total_prefix<K: DamageKind>(s: Seq<Resist<K>>, j: int, kind: K)
    requires
        0 <= j <= s.len(),
    ensures
        0 <= resist_total(s.subrange(0, j), kind) <= resist_total(s, kind),
    decreases s.len(),
{
    if j == s.len() {
        assert(s.subrange(0, j) == s);
        lemma_resist_total_nonneg(s, kind);
    } else {
        lemma_resist_total_prefix(s.drop_last(), j, kind);
        assert(s.drop_last().subrange(0, j) == s.subrange(0, j));
    }
}

proof fn lemma_resist_total_nonneg<K: DamageKind>(s: Seq<Resist<K>>, kind: K)
    ensures
        0 <= resist_total(s, kind),
    decreases s.len(),
{
    if s.len() > 0 {
        lemma_resist_total_nonneg(s.drop_last(), kind);
    }
}

impl<K: DamageKind> Resistance<K> {
    pub fn new(resistances: Vec<Resist<K>>) -> (r: Self)
        ensures
            r.amounts@ == resistances@,
    {
        Resistance { amounts: resistances }
    }

    /// Appends the resistances of `other`.
    pub fn ingest(&mut self, other: &Resistance<K>)
        ensures
            final(self).amounts@ == old(self).amounts@ + other.amounts@,
    {
        let mut i: usize = 0;
        let ghost start = self.amounts@;
        while i < other.amounts.len()
            invariant
                i <= other.amounts.len(),
                self.amounts@ == start + other.amounts@.subrange(0, i as int),
            decreases other.amounts.len() - i,
        {
            self.amounts.push(other.amounts[i]);
            i = i + 1;
        }
        assert(other.amounts@.subrange(0, other.amounts.len() as int) == other.amounts@);
    }

    /// The percentage of `kind` damage resisted: the sum of the matching resistances, at
    /// most 100.
    pub fn percent_for(&self, kind: K) -> (r: u8)
        ensures
            r == if resist_total(self.amounts@, kind) < 100 {
                resist_total(self.amounts@, kind)
            } else {
                100
            },
    {
        let mut total: u8 = 0;
        let mut i: usize = 0;
        while i < self.amounts.len()
            invariant
                i <= self.amounts.len(),
                total == if resist_total(self.amounts@.subrange(0, i as int), kind) < 100 {
                    resist_total(self.amounts@.subrange(0, i as int), kind)
                } else {
                    100
                },
            decreases self.amounts.len() - i,
        {
            let r = self.amounts[i];
            assert(self.amounts@.subrange(0, i + 1).drop_last() == self.amounts@.subrange(0, i as int));
            proof {
                lemma_resist_total_prefix(self.amounts@, i as int, kind);
            }
            if r.kind.same_kind(&kind) {
                let sum: u16 = total as u16 + r.percent as u16;
                total = if sum < 100 { sum as u8 } else { 100 };
            }
            i = i + 1;
        }
        assert(self.amounts@.subrange(0, self.amounts.len() as int) == self.amounts@);
        total
    }
}

impl<K: DamageKind> Default for Resistance<K> {
    fn default() -> (r: Self)
        ensures
            r.amounts@.len() == 0,
    {
        Resistance { amounts: Vec::new() }
    }
}

} // verus!
