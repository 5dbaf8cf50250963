use vstd::prelude::*;

verus! {

/// Kind of attribute an actor has (strength, dexterity, ...). Implemented by the game.
pub trait AttributeType: Copy + Sized {
    /// Whether two attribute kinds are the same kind.
    fn same_attribute(&self, other: &Self) -> (r: bool)
        ensures
            r == (*self == *other),
    ;

    /// Every attribute kind, once each.
    fn variants() -> (r: Vec<Self>)
        ensures
            r@.no_duplicates(),
            forall|a: Self| r@.contains(a),
    ;
}

/// The value recorded for `a` among `entries`, or 0 when none is.
pub open spec fn lookup<A>(entries: Seq<(A, u8)>, a: A) -> u8
    decreases entries.len(),
{
    if entries.len() == 0 {
        0
    } else if entries.last().0 == a {
        entries.last().1
    } else {
        lookup(entries.drop_last(), a)
    }
}

/// The attribute kinds recorded, in order.
pub open spec fn attribute_keys<A>(entries: Seq<(A, u8)>) -> Seq<A> {
    entries.map_values(|p: (A, u8)| p.0)
}

/// Whether `lhs + rhs` fits in `u8` for every attribute of `lhs`.
pub open spec fn sum_fits<A>(lhs: Seq<(A, u8)>, rhs: Seq<(A, u8)>) -> bool {
    forall|k: int| 0 <= k < lhs.len() ==> (#[trigger] lhs[k]).1 + lookup(rhs, lhs[k].0) <= u8::MAX
}

/// Amounts of each attribute kind.
#[derive(Debug, Clone)]
pub struct Attributes<A: AttributeType> {
    list: Vec<(A, u8)>,
}

impl<A: AttributeType> Attributes<A> {
    /// The recorded (kind, amount) pairs, in order.
    pub closed spec fn entries(&self) -> Seq<(A, u8)> {
        self.list@
    }

    /// No attribute kind is recorded twice.
    pub open spec fn wf(&self) -> bool {
        attribute_keys(self.entries()).no_duplicates()
    }

    /// The amount of `a` (0 when it is not recorded).
    pub open spec fn value(&self, a: A) -> u8 {
        lookup(self.entries(), a)
    }

    /// A copy of these attributes.
    pub fn duplicate(&self) -> (r: Self)
        ensures
            r.entries() == self.entries(),
    {
        Attributes { list: self.to_list() }
    }

    /// The recorded (kind, amount) pairs, in order.
    pub fn to_list(&self) -> (r: Vec<(A, u8)>)
        ensures
            r@ == self.entries(),
    {
        let mut list: Vec<(A, u8)> = Vec::new();
        let mut i: usize = 0;
        while i < self.list.len()
            invariant
                i <= self.list.len(),
                list@ == self.list@.subrange(0, i as int),
            decreases self.list.len() - i,
        {
            list.push(self.list[i]);
            i = i + 1;
        }
        assert(list@ == self.list@);
        list
    }

    /// Attributes holding `list` as they are.
    pub fn from_list(list: Vec<(A, u8)>) -> (r: Self)
        ensures
            r.entries() == list@,
    {
        Attributes { list }
    }

    /// The amount of `attribute_type`, 0 when it is not recorded.
    pub fn get(&self, attribute_type: &A) -> (r: u8)
        ensures
            r == self.value(*attribute_type),
    {
        let mut i: usize = self.list.len();
        assert(self.list@.subrange(0, i as int) == self.list@);
        while i > 0
            invariant
                i <= self.list.len(),
                lookup(self.list@, *attribute_type) == lookup(self.list@.subrange(0, i as int), *attribute_type),
            decreases i,
        {
            let (a, v) = self.list[i - 1];
            assert(self.list@.subrange(0, i as int).drop_last() == self.list@.subrange(0, i - 1));
            if a.same_attribute(attribute_type) {
                return v;
            }
            i = i - 1;
        }
        0
    }

    /// Every attribute kind with amount `value`.
    pub fn with_all(value: u8) -> (r: Self)
        ensures
            r.wf(),
            attribute_keys(r.entries()).len() == r.entries().len(),
            forall|k: int| 0 <= k < r.entries().len() ==> (#[trigger] r.entries()[k]).1 == value,
            forall|a: A| #[trigger] attribute_keys(r.entries()).contains(a),
    {
        let kinds = A::variants();
        let mut list: Vec<(A, u8)> = Vec::new();
        let mut i: usize = 0;
        while i < kinds.len()
            invariant
                i <= kinds.len(),
                kinds@.no_duplicates(),
                list.len() == i,
                attribute_keys(list@) == kinds@.subrange(0, i as int),
                forall|k: int| 0 <= k < list.len() ==> (#[trigger] list@[k]).1 == value,
            decreases kinds.len() - i,
        {
            let ghost before = list@;
            list.push((kinds[i], value));
            assert forall|j: int| 0 <= j < i + 1 implies #[trigger] attribute_keys(list@)[j] == kinds@.subrange(0, i + 1)[j] by {
                if j < i {
                    assert(list@[j] == before[j]);
                    assert(attribute_keys(before)[j] == kinds@.subrange(0, i as int)[j]);
                }
            }
            assert(attribute_keys(list@) =~= kinds@.subrange(0, i + 1));
            i = i + 1;
        }
        assert(kinds@.subrange(0, kinds.len() as int) == kinds@);
        Attributes { list }
    }

    /// Adds the amounts of `rhs` to those of `self`, for every kind `self` records.
    pub fn add(self, rhs: Self) -> (r: Self)
        requires
            sum_fits(self.entries(), rhs.entries()),
        ensures
            r.entries().len() == self.entries().len(),
            forall|k: int|
                0 <= k < r.entries().len() ==> (#[trigger] r.entries()[k]).0 == self.entries()[k].0
                    && r.entries()[k].1 == self.entries()[k].1 + lookup(rhs.entries(), self.entries()[k].0),
            attribute_keys(r.entries()) == attribute_keys(self.entries()),
    {
        let mut list: Vec<(A, u8)> = Vec::new();
        let mut i: usize = 0;
        while i < self.list.len()
            invariant
                i <= self.list.len(),
                sum_fits(self.list@, rhs.list@),
                list.len() == i,
                forall|k: int|
                    0 <= k < i ==> (#[trigger] list@[k]).0 == self.list@[k].0 && list@[k].1
                        == self.list@[k].1 + lookup(rhs.list@, self.list@[k].0),
            decreases self.list.len() - i,
        {
            let (t, v) = self.list[i];
            assert(self.list@[i as int].1 + lookup(rhs.list@, self.list@[i as int].0) <= u8::MAX);
            list.push((t, v + rhs.get(&t)));
            i = i + 1;
        }
        let r = Attributes { list };
        assert(attribute_keys(r.list@) == attribute_keys(self.list@));
        r
    }
}

/// Sum over `items` of the amounts of `a`.
pub open spec fn total<A: AttributeType>(items: Seq<Attributes<A>>, a: A) -> int
    decreases items.len(),
{
    if items.len() == 0 {
        0
    } else {
        total(items.drop_last(), a) + items.last().value(a)
    }
}

proof fn lemma_total_prefix_le<A: AttributeType>(items: Seq<Attributes<A>>, j: int, a: A)
    requires
        0 <= j <= items.len(),
    ensures
        total(items.subrange(0, j), a) <= total(items, a),
    decreases items.len(),
{
    if j == items.len() {
        assert(items.subrange(0, j) == items);
    } else {
        lemma_total_prefix_le(items.drop_last(), j, a);
        assert(items.drop_last().subrange(0, j) == items.subrange(0, j));
    }
}

/// The attributes adding up `items` kind by kind, starting from all kinds at 0.
pub fn sum<A: AttributeType>(items: Vec<Attributes<A>>) -> (r: Attributes<A>)
    requires
        forall|a: A| #[trigger] total(items@, a) <= u8::MAX,
    ensures
        r.wf(),
        forall|k: int| 0 <= k < r.entries().len() ==> (#[trigger] r.entries()[k]).1 == total(items@, r.entries()[k].0),
{
    let mut acc: Attributes<A> = Attributes::with_all(0);
    let mut i: usize = 0;
    while i < items.len()
        invariant
            i <= items.len(),
            forall|a: A| #[trigger] total(items@, a) <= u8::MAX,
            acc.wf(),
            forall|k: int| 0 <= k < acc.entries().len() ==> (#[trigger] acc.entries()[k]).1 == total(items@.subrange(0, i as int), acc.entries()[k].0),
        decreases items.len() - i,
    {
        let item = items[i].duplicate();
        let ghost pre = items@.subrange(0, i as int);
        let ghost post = items@.subrange(0, i + 1);
        assert(post.drop_last() == pre);
        assert(post.last() == items@[i as int]);
        proof {
            assert forall|k: int| 0 <= k < acc.entries().len() implies (#[trigger] acc.entries()[k]).1 + lookup(item.entries(), acc.entries()[k].0) <= u8::MAX by {
                lemma_total_prefix_le(items@, i + 1, acc.entries()[k].0);
            }
        }
        let ghost prev = acc.entries();
        acc = acc.add(item);
        proof {
            assert forall|k: int| 0 <= k < acc.entries().len() implies (#[trigger] acc.entries()[k]).1 == total(post, acc.entries()[k].0) by {
                assert(acc.entries()[k].0 == prev[k].0);
            }
            assert(attribute_keys(acc.entries()) == attribute_keys(prev));
        }
        i = i + 1;
    }
    assert(items@.subrange(0, items.len() as int) == items@);
    acc
}

impl<A: AttributeType> Default for Attributes<A> {
    fn default() -> (r: Self)
        ensures
            r.wf(),
            forall|k: int| 0 <= k < r.entries().len() ==> (#[trigger] r.entries()[k]).1 == 0,
    {
        Self::with_all(0)
    }
}

/// The value of a kind after `add` is the sum of both sides' values, for every kind the
/// left side records when it records each once.
pub proof fn lemma_add_values<A>(lhs: Seq<(A, u8)>, rhs: Seq<(A, u8)>, out: Seq<(A, u8)>, a: A)
    requires
        attribute_keys(lhs).no_duplicates(),
        attribute_keys(lhs).contains(a),
        out.len() == lhs.len(),
        forall|k: int|
            0 <= k < out.len() ==> (#[trigger] out[k]).0 == lhs[k].0 && out[k].1 == lhs[k].1
                + lookup(rhs, lhs[k].0),
    ensures
        lookup(out, a) == lookup(lhs, a) + lookup(rhs, a),
    decreases lhs.len(),
{
    if lhs.last().0 != a {
        assert(attribute_keys(lhs.drop_last()) == attribute_keys(lhs).drop_last());
        let k = choose|k: int| 0 <= k < attribute_keys(lhs).len() && attribute_keys(lhs)[k] == a;
        assert(k != lhs.len() - 1);
        assert(attribute_keys(lhs.drop_last())[k] == a);
        lemma_add_values(lhs.drop_last(), rhs, out.drop_last(), a);
        assert(out.last().0 == lhs.last().0);
    }
}

} // verus!
