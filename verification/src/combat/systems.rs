use crate::combat::attributes::AttributeType;
use crate::combat::block::Block;
use crate::combat::damage::DamageKind;
use crate::combat::evasion::{ratio_rollable, roll_against, Evasion};
use crate::rng::gen_range_usize;
use rand::rngs::StdRng;
use vstd::prelude::*;

verus! {

/// How a defender met an attack.
#[derive(Debug, Clone, Copy, PartialEq, Eq, Structural)]
pub enum DefenseOutcome {
    /// Evaded, spending this many action points.
    Evaded(i16),
    /// Blocked by the block at this index, spending this many action points.
    Blocked(usize, i16),
    /// The attack lands.
    Hit,
}

/// Picks which of `count` attacks an attacker uses.
pub fn pick_attack(rng: &mut StdRng, count: usize) -> (r: usize)
    requires
        count > 0,
    ensures
        r < count,
{
    gen_range_usize(rng, 0, count)
}

/// Whether a roll of chance `rate` against the hit chance `rate_hit` can come out `won`: a
/// zero chance never wins, a chance at least the hit chance always does.
pub open spec fn roll_possible(rate: i32, rate_hit: i32, won: bool) -> bool {
    let low = if rate < rate_hit { rate } else { rate_hit };
    &&& (low as u32) == 0 ==> !won
    &&& (low as u32) == (rate_hit as u32) ==> won
}

/// Whether a roll of chance `rate` against `rate_hit` is sure to win.
pub open spec fn roll_certain(rate: i32, rate_hit: i32) -> bool {
    let low = if rate < rate_hit { rate } else { rate_hit };
    (low as u32) == (rate_hit as u32)
}

/// Whether block `b` works on `kind`.
pub open spec fn covers<K: DamageKind, A: AttributeType>(b: Block<K, A>, kind: K) -> bool {
    b.block_type@.contains(kind)
}

/// The first block from index `i` on that covers `kind` and whose roll in `rolls` won,
/// with its cost from `rates`; `Hit` when there is none.
pub open spec fn first_block<K: DamageKind, A: AttributeType>(
    blocks: Seq<Block<K, A>>,
    rates: Seq<(i32, i16)>,
    rolls: Seq<bool>,
    kind: K,
    i: int,
) -> DefenseOutcome
    decreases blocks.len() - i,
{
    if i < 0 || i >= blocks.len() {
        DefenseOutcome::Hit
    } else if covers(blocks[i], kind) && rolls[i] {
        DefenseOutcome::Blocked(i as usize, rates[i].1)
    } else {
        first_block(blocks, rates, rolls, kind, i + 1)
    }
}

/// The outcome of a defence whose evasion roll came out `evaded` and whose block rolls came
/// out `rolls`: evasion first, then the blocks in order; the first success decides.
pub open spec fn defense_outcome<K: DamageKind, A: AttributeType>(
    evaded: bool,
    evade_cost: i16,
    blocks: Seq<Block<K, A>>,
    rates: Seq<(i32, i16)>,
    rolls: Seq<bool>,
    kind: K,
) -> DefenseOutcome {
    if evaded {
        DefenseOutcome::Evaded(evade_cost)
    } else {
        first_block(blocks, rates, rolls, kind, 0)
    }
}

/// Whether block `i` can be reached: neither the evasion nor any earlier block covering
/// `kind` is sure to succeed.
pub open spec fn block_reachable<K: DamageKind, A: AttributeType>(
    rate_evade: i32,
    blocks: Seq<Block<K, A>>,
    rates: Seq<(i32, i16)>,
    kind: K,
    rate_hit: i32,
    i: int,
) -> bool {
    &&& !roll_certain(rate_evade, rate_hit)
    &&& forall|j: int| 0 <= j < i && #[trigger] covers(blocks[j], kind) ==> !roll_certain(rates[j].0, rate_hit)
}

/// Whether every roll a defence can reach can be made: the evasion when the defender has
/// action points, and each covering block that can be reached.
pub open spec fn defense_rollable<K: DamageKind, A: AttributeType>(
    defender_ap: i16,
    rate_evade: i32,
    blocks: Seq<Block<K, A>>,
    rates: Seq<(i32, i16)>,
    kind: K,
    rate_hit: i32,
) -> bool {
    defender_ap > 0 ==> {
        &&& ratio_rollable(rate_evade, rate_hit)
        &&& forall|i: int|
            0 <= i < blocks.len() && #[trigger] covers(blocks[i], kind) && block_reachable(rate_evade, blocks, rates, kind, rate_hit, i)
                ==> ratio_rollable(rates[i].0, rate_hit)
    }
}

/// Rolls a block is sure to give: a win exactly where it is certain.
pub open spec fn certain_rolls(rates: Seq<(i32, i16)>, rate_hit: i32) -> Seq<bool> {
    Seq::new(rates.len(), |k: int| roll_certain(rates[k].0, rate_hit))
}

proof fn lemma_first_block_at<K: DamageKind, A: AttributeType>(
    blocks: Seq<Block<K, A>>,
    rates: Seq<(i32, i16)>,
    rolls: Seq<bool>,
    kind: K,
    j: int,
    i: int,
)
    requires
        0 <= j <= i < blocks.len(),
        covers(blocks[i], kind) && rolls[i],
        forall|k: int| j <= k < i ==> !(#[trigger] covers(blocks[k], kind) && rolls[k]),
    ensures
        first_block(blocks, rates, rolls, kind, j) == DefenseOutcome::Blocked(i as usize, rates[i].1),
    decreases i - j,
{
    if j < i {
        lemma_first_block_at(blocks, rates, rolls, kind, j + 1, i);
    }
}

proof fn lemma_first_block_none<K: DamageKind, A: AttributeType>(
    blocks: Seq<Block<K, A>>,
    rates: Seq<(i32, i16)>,
    rolls: Seq<bool>,
    kind: K,
    j: int,
)
    requires
        0 <= j <= blocks.len(),
        forall|k: int| j <= k < blocks.len() ==> !(#[trigger] covers(blocks[k], kind) && rolls[k]),
    ensures
        first_block(blocks, rates, rolls, kind, j) == DefenseOutcome::Hit,
    decreases blocks.len() - j,
{
    if j < blocks.len() {
        lemma_first_block_none(blocks, rates, rolls, kind, j + 1);
    }
}

/// Whether two rates make a roll that can be drawn.
fn rollable(rate: i32, rate_hit: i32) -> (r: bool)
    ensures
        r == ratio_rollable(rate, rate_hit),
{
    let low = if rate < rate_hit { rate } else { rate_hit };
    (rate_hit as u32) != 0 && (low as u32) <= (rate_hit as u32)
}

/// Whether a roll is sure to win.
fn certain(rate: i32, rate_hit: i32) -> (r: bool)
    ensures
        r == roll_certain(rate, rate_hit),
{
    let low = if rate < rate_hit { rate } else { rate_hit };
    (low as u32) == (rate_hit as u32)
}

/// Whether `defend` can make every roll it may reach on these values (see
/// `defense_rollable`); where it cannot, a roll would be drawn from an impossible chance.
pub fn defense_can_roll<K: DamageKind, A: AttributeType>(
    defender_ap: i16,
    rate_evade: i32,
    blocks: &Vec<Block<K, A>>,
    block_rates: &Vec<(i32, i16)>,
    kind: K,
    rate_hit: i32,
) -> (r: bool)
    requires
        block_rates.len() == blocks.len(),
    ensures
        r == defense_rollable(defender_ap, rate_evade, blocks@, block_rates@, kind, rate_hit),
{
    if defender_ap <= 0 {
        return true;
    }
    if !rollable(rate_evade, rate_hit) {
        return false;
    }
    let mut reachable = !certain(rate_evade, rate_hit);
    let mut i: usize = 0;
    while i < blocks.len()
        invariant
            i <= blocks.len(),
            block_rates.len() == blocks.len(),
            defender_ap > 0,
            ratio_rollable(rate_evade, rate_hit),
            reachable == block_reachable(rate_evade, blocks@, block_rates@, kind, rate_hit, i as int),
            forall|k: int|
                0 <= k < i && #[trigger] covers(blocks@[k], kind) && block_reachable(rate_evade, blocks@, block_rates@, kind, rate_hit, k)
                    ==> ratio_rollable(block_rates@[k].0, rate_hit),
        decreases blocks.len() - i,
    {
        let (rate_block, _) = block_rates[i];
        if blocks[i].covers(kind) {
            if reachable && !rollable(rate_block, rate_hit) {
                assert(covers(blocks@[i as int], kind));
                return false;
            }
            if certain(rate_block, rate_hit) {
                reachable = false;
                assert(covers(blocks@[i as int], kind));
            }
        }
        proof {
            if reachable {
                assert forall|j: int| 0 <= j < i + 1 && #[trigger] covers(blocks@[j], kind)
                    implies !roll_certain(block_rates@[j].0, rate_hit) by {
                    if j < i {
                        assert(block_reachable(rate_evade, blocks@, block_rates@, kind, rate_hit, i as int));
                    }
                }
            } else {
                if block_reachable(rate_evade, blocks@, block_rates@, kind, rate_hit, i + 1) {
                    assert(!roll_certain(rate_evade, rate_hit));
                    assert(block_reachable(rate_evade, blocks@, block_rates@, kind, rate_hit, i as int)) by {
                        assert forall|j: int| 0 <= j < i && #[trigger] covers(blocks@[j], kind)
                            implies !roll_certain(block_rates@[j].0, rate_hit) by {}
                    }
                    assert(covers(blocks@[i as int], kind));
                }
            }
        }
        i = i + 1;
    }
    true
}

/// A defender meets an attack of kind `kind` whose hit chance is `rate_hit`. Only a
/// defender with action points above zero defends: it first tries to evade (chance
/// `rate_evade`, cost `evade_cost`), then each block in order (`block_rates[i]` holding
/// block `i`'s chance and cost); the first success decides, and nothing is rolled after
/// it. A defender without action points rolls nothing.
pub fn defend<K: DamageKind, A: AttributeType>(
    rng: &mut StdRng,
    defender_ap: i16,
    evasion: &Evasion<A>,
    rate_evade: i32,
    evade_cost: i16,
    blocks: &Vec<Block<K, A>>,
    block_rates: &Vec<(i32, i16)>,
    kind: K,
    rate_hit: i32,
) -> (r: DefenseOutcome)
    requires
        block_rates.len() == blocks.len(),
        defense_rollable(defender_ap, rate_evade, blocks@, block_rates@, kind, rate_hit),
    ensures
        defender_ap <= 0 ==> r == DefenseOutcome::Hit && *final(rng) == *old(rng),
        defender_ap > 0 ==> exists|evaded: bool, rolls: Seq<bool>|
            #![trigger defense_outcome(evaded, evade_cost, blocks@, block_rates@, rolls, kind)]
            roll_possible(rate_evade, rate_hit, evaded)
            && rolls.len() == blocks.len()
            && (forall|k: int|
                0 <= k < blocks.len() && #[trigger] covers(blocks@[k], kind) && ratio_rollable(block_rates@[k].0, rate_hit)
                    ==> roll_possible(block_rates@[k].0, rate_hit, rolls[k]))
            && r == defense_outcome(evaded, evade_cost, blocks@, block_rates@, rolls, kind),
{
    if defender_ap <= 0 {
        return DefenseOutcome::Hit;
    }
    let ghost dflt = certain_rolls(block_rates@, rate_hit);
    let (evaded, cost) = evasion.try_evade(rate_evade, rate_hit, evade_cost, rng);
    if evaded {
        assert(defense_outcome(true, evade_cost, blocks@, block_rates@, dflt, kind) == DefenseOutcome::Evaded(evade_cost));
        return DefenseOutcome::Evaded(cost);
    }
    let ghost mut rolls: Seq<bool> = Seq::empty();
    let mut i: usize = 0;
    while i < blocks.len()
        invariant
            i <= blocks.len(),
            block_rates.len() == blocks.len(),
            defender_ap > 0,
            !evaded,
            roll_possible(rate_evade, rate_hit, evaded),
            defense_rollable(defender_ap, rate_evade, blocks@, block_rates@, kind, rate_hit),
            rolls.len() == i,
            dflt == certain_rolls(block_rates@, rate_hit),
            forall|k: int| 0 <= k < i ==> !(#[trigger] covers(blocks@[k], kind) && rolls[k]),
            forall|k: int| 0 <= k < i && #[trigger] covers(blocks@[k], kind) ==> !roll_certain(block_rates@[k].0, rate_hit),
            forall|k: int|
                0 <= k < i && #[trigger] covers(blocks@[k], kind) && ratio_rollable(block_rates@[k].0, rate_hit)
                    ==> roll_possible(block_rates@[k].0, rate_hit, rolls[k]),
        decreases blocks.len() - i,
    {
        let (rate_block, block_cost) = block_rates[i];
        proof {
            if covers(blocks@[i as int], kind) {
                assert(block_reachable(rate_evade, blocks@, block_rates@, kind, rate_hit, i as int));
            }
        }
        let (blocked, spent) = blocks[i].try_block(kind, rate_block, rate_hit, block_cost, rng);
        if blocked {
            let ghost w = rolls.push(true) + dflt.subrange(i + 1, blocks.len() as int);
            proof {
                assert(covers(blocks@[i as int], kind));
                assert forall|k: int| 0 <= k < i implies !(#[trigger] covers(blocks@[k], kind) && w[k]) by {
                    assert(w[k] == rolls[k]);
                }
                lemma_first_block_at(blocks@, block_rates@, w, kind, 0, i as int);
                assert forall|k: int|
                    0 <= k < blocks.len() && #[trigger] covers(blocks@[k], kind) && ratio_rollable(block_rates@[k].0, rate_hit)
                        implies roll_possible(block_rates@[k].0, rate_hit, w[k]) by {
                    if k < i {
                        assert(w[k] == rolls[k]);
                    } else if k > i {
                        assert(w[k] == dflt[k]);
                    }
                }
                assert(defense_outcome(evaded, evade_cost, blocks@, block_rates@, w, kind) == DefenseOutcome::Blocked(i, spent));
            }
            return DefenseOutcome::Blocked(i, spent);
        }
        proof {
            let prev = rolls;
            rolls = rolls.push(false);
            assert forall|k: int| 0 <= k < i + 1 implies !(#[trigger] covers(blocks@[k], kind) && rolls[k]) by {
                if k < i { assert(rolls[k] == prev[k]); }
            }
            assert forall|k: int|
                0 <= k < i + 1 && #[trigger] covers(blocks@[k], kind) implies !roll_certain(block_rates@[k].0, rate_hit) by {
            }
            assert forall|k: int|
                0 <= k < i + 1 && #[trigger] covers(blocks@[k], kind) && ratio_rollable(block_rates@[k].0, rate_hit)
                    implies roll_possible(block_rates@[k].0, rate_hit, rolls[k]) by {
                if k < i { assert(rolls[k] == prev[k]); }
            }
        }
        i = i + 1;
    }
    proof {
        lemma_first_block_none(blocks@, block_rates@, rolls, kind, 0);
        assert(defense_outcome(evaded, evade_cost, blocks@, block_rates@, rolls, kind) == DefenseOutcome::Hit);
    }
    DefenseOutcome::Hit
}

} // verus!
