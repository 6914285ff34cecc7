use vstd::prelude::*;
use crate::tag::{lemma_rank_tag_at, rank, tag_at, Policy, TypeTag, TAG_COUNT};

verus! {

/// `n` clipped to the largest `u64`.
pub open spec fn sat(n: int) -> u64 {
    if n > u64::MAX {
        u64::MAX
    } else if n < 0 {
        0
    } else {
        n as u64
    }
}

/// How many entries of `tags` equal `t`.
pub open spec fn occurrences(tags: Seq<TypeTag>, t: TypeTag) -> nat
    decreases tags.len(),
{
    if tags.len() == 0 {
        0
    } else {
        occurrences(tags.drop_last(), t) + if tags.last() == t {
            1nat
        } else {
            0nat
        }
    }
}

/// The tally of a sequence of tags: one (clipped) count per tag, indexed by
/// precedence.
pub open spec fn tally_spec(tags: Seq<TypeTag>) -> Seq<u64> {
    Seq::new(TAG_COUNT as nat, |i: int| sat(occurrences(tags, tag_at(i)) as int))
}

/// Two tallies combined: counts of the same tag add, clipped to `u64::MAX`.
pub open spec fn merge_spec(a: Seq<u64>, b: Seq<u64>) -> Seq<u64> {
    Seq::new(TAG_COUNT as nat, |i: int| sat(a[i] + b[i]))
}

/// The tally in which no tag was observed.
pub open spec fn empty_tally() -> Seq<u64> {
    Seq::new(TAG_COUNT as nat, |i: int| 0u64)
}

/// The first observed tag at position `i` or later; `NVARCHAR(MAX)` if none.
pub open spec fn first_present(c: Seq<u64>, i: int) -> TypeTag
    decreases TAG_COUNT - i,
{
    if i < 0 || i >= TAG_COUNT {
        TypeTag::NVarCharMax
    } else if c[i] > 0 {
        tag_at(i)
    } else {
        first_present(c, i + 1)
    }
}

/// How many tags at position `i` or later were observed.
pub open spec fn present_from(c: Seq<u64>, i: int) -> nat
    decreases TAG_COUNT - i,
{
    if i < 0 || i >= TAG_COUNT {
        0
    } else {
        present_from(c, i + 1) + if c[i] > 0 {
            1nat
        } else {
            0nat
        }
    }
}

/// The tag a tally resolves to under a policy.
pub open spec fn resolve_spec(c: Seq<u64>, policy: Policy) -> TypeTag {
    match policy {
        Policy::NarrowestFirst => first_present(c, 0),
        Policy::StrictMismatch => if present_from(c, 0) == 1 {
            first_present(c, 0)
        } else {
            TypeTag::NVarCharMax
        },
    }
}

/// Per-tag occurrence counts for one column, over one batch or many.
#[derive(Clone, Debug)]
pub struct TypeCounts {
    counts: Vec<u64>,
}

impl View for TypeCounts {
    type V = Seq<u64>;

    closed spec fn view(&self) -> Seq<u64> {
        self.counts@
    }
}

impl TypeCounts {
    /// Holds one count per tag.
    pub open spec fn wf(&self) -> bool {
        self@.len() == TAG_COUNT
    }

    /// A tally with nothing observed.
    pub fn new() -> (r: TypeCounts)
        ensures
            r.wf(),
            r@ == empty_tally(),
    {
        let mut counts: Vec<u64> = Vec::new();
        let mut i: usize = 0;
        while i < TAG_COUNT
            invariant
                i <= TAG_COUNT,
                counts@ == Seq::new(i as nat, |j: int| 0u64),
            decreases TAG_COUNT - i,
        {
            counts.push(0);
            i = i + 1;
            assert(counts@ =~= Seq::new(i as nat, |j: int| 0u64));
        }
        let r = TypeCounts { counts };
        assert(r@ =~= empty_tally());
        r
    }

    /// The count observed for tag `t`.
    pub fn count(&self, t: TypeTag) -> (r: u64)
        requires
            self.wf(),
        ensures
            r == self@[rank(t) as int],
    {
        self.counts[t.precedence()]
    }

    /// Records one more occurrence of `t` (a count already at `u64::MAX` stays).
    pub fn record(&mut self, t: TypeTag)
        requires
            old(self).wf(),
        ensures
            final(self).wf(),
            final(self)@ == old(self)@.update(
                rank(t) as int,
                sat(old(self)@[rank(t) as int] + 1),
            ),
    {
        let i = t.precedence();
        let c = self.counts[i];
        let n = if c == u64::MAX {
            c
        } else {
            c + 1
        };
        self.counts.set(i, n);
    }

    /// Combines two tallies: counts of a tag add, clipped to `u64::MAX`.
    pub fn merge(&self, other: &TypeCounts) -> (r: TypeCounts)
        requires
            self.wf(),
            other.wf(),
        ensures
            r.wf(),
            r@ == merge_spec(self@, other@),
    {
        let mut counts: Vec<u64> = Vec::new();
        let mut i: usize = 0;
        while i < TAG_COUNT
            invariant
                self.wf(),
                other.wf(),
                i <= TAG_COUNT,
                counts@ == merge_spec(self@, other@).subrange(0, i as int),
            decreases TAG_COUNT - i,
        {
            let a = self.counts[i];
            let b = other.counts[i];
            let n = a.saturating_add(b);
            counts.push(n);
            i = i + 1;
            assert(counts@ =~= merge_spec(self@, other@).subrange(0, i as int));
        }
        let r = TypeCounts { counts };
        assert(r@ =~= merge_spec(self@, other@));
        r
    }

    /// Whether tag `t` was observed at least once.
    pub fn is_present(&self, t: TypeTag) -> (r: bool)
        requires
            self.wf(),
        ensures
            r == (self@[rank(t) as int] > 0),
    {
        self.counts[t.precedence()] > 0
    }

    /// Reduces the tally to one tag under `policy`.
    pub fn resolve(&self, policy: Policy) -> (r: TypeTag)
        requires
            self.wf(),
        ensures
            r == resolve_spec(self@, policy),
    {
        let mut first: Option<usize> = None;
        let mut n: usize = 0;
        let mut i: usize = TAG_COUNT;
        while i > 0
            invariant
                self.wf(),
                i <= TAG_COUNT,
                n == present_from(self@, i as int),
                n <= TAG_COUNT - i,
                match first {
                    Some(k) => i <= k < TAG_COUNT && first_present(self@, i as int) == tag_at(
                        k as int,
                    ),
                    None => first_present(self@, i as int) == TypeTag::NVarCharMax,
                },
            decreases i,
        {
            i = i - 1;
            if self.counts[i] > 0 {
                first = Some(i);
                n = n + 1;
            }
        }
        let narrowest = match first {
            Some(k) => TypeTag::from_precedence(k),
            None => TypeTag::NVarCharMax,
        };
        match policy {
            Policy::NarrowestFirst => narrowest,
            Policy::StrictMismatch => if n == 1 {
                narrowest
            } else {
                TypeTag::NVarCharMax
            },
        }
    }
}

proof fn lemma_presence_from(a: Seq<u64>, b: Seq<u64>, i: int)
    requires
        a.len() == TAG_COUNT,
        b.len() == TAG_COUNT,
        forall|j: int| 0 <= j < TAG_COUNT ==> (a[j] > 0 <==> b[j] > 0),
    ensures
        first_present(a, i) == first_present(b, i),
        present_from(a, i) == present_from(b, i),
    decreases TAG_COUNT - i,
{
    if 0 <= i < TAG_COUNT {
        lemma_presence_from(a, b, i + 1);
    }
}

/// Only which tags were observed, not how often, decides the resolved tag.
pub proof fn lemma_resolve_by_presence(a: Seq<u64>, b: Seq<u64>, policy: Policy)
    requires
        a.len() == TAG_COUNT,
        b.len() == TAG_COUNT,
        forall|j: int| 0 <= j < TAG_COUNT ==> (a[j] > 0 <==> b[j] > 0),
    ensures
        resolve_spec(a, policy) == resolve_spec(b, policy),
{
    lemma_presence_from(a, b, 0);
}

/// A tag is observed in a merged tally exactly when it is observed in either
/// side.
pub proof fn lemma_merge_presence(a: Seq<u64>, b: Seq<u64>, t: TypeTag)
    requires
        a.len() == TAG_COUNT,
        b.len() == TAG_COUNT,
    ensures
        merge_spec(a, b)[rank(t) as int] > 0 <==> (a[rank(t) as int] > 0 || b[rank(t) as int]
            > 0),
{
    lemma_rank_tag_at(t, 0);
}

/// Merging is commutative.
pub proof fn lemma_merge_commutative(a: Seq<u64>, b: Seq<u64>)
    requires
        a.len() == TAG_COUNT,
        b.len() == TAG_COUNT,
    ensures
        merge_spec(a, b) == merge_spec(b, a),
{
    assert(merge_spec(a, b) =~= merge_spec(b, a));
}

/// Merging is associative.
pub proof fn lemma_merge_associative(a: Seq<u64>, b: Seq<u64>, c: Seq<u64>)
    requires
        a.len() == TAG_COUNT,
        b.len() == TAG_COUNT,
        c.len() == TAG_COUNT,
    ensures
        merge_spec(merge_spec(a, b), c) == merge_spec(a, merge_spec(b, c)),
{
    assert(merge_spec(merge_spec(a, b), c) =~= merge_spec(a, merge_spec(b, c)));
}

/// The empty tally is the identity of merging.
pub proof fn lemma_merge_empty(a: Seq<u64>)
    requires
        a.len() == TAG_COUNT,
    ensures
        merge_spec(empty_tally(), a) == a,
        tally_spec(Seq::empty()) == empty_tally(),
{
    assert(merge_spec(empty_tally(), a) =~= a);
    assert(tally_spec(Seq::empty()) =~= empty_tally());
}

proof fn lemma_occurrences_concat(x: Seq<TypeTag>, y: Seq<TypeTag>, t: TypeTag)
    ensures
        occurrences(x + y, t) == occurrences(x, t) + occurrences(y, t),
    decreases y.len(),
{
    if y.len() == 0 {
        assert(x + y =~= x);
    } else {
        lemma_occurrences_concat(x, y.drop_last(), t);
        assert((x + y).drop_last() =~= x + y.drop_last());
    }
}

/// Tallying a column batch by batch and merging gives the tally of the whole
/// column: the tally of `x + y` is the merge of the tallies of `x` and `y`.
pub proof fn lemma_tally_concat(x: Seq<TypeTag>, y: Seq<TypeTag>)
    ensures
        tally_spec(x + y) == merge_spec(tally_spec(x), tally_spec(y)),
{
    assert forall|i: int| 0 <= i < TAG_COUNT implies #[trigger] tally_spec(x + y)[i] == merge_spec(
        tally_spec(x),
        tally_spec(y),
    )[i] by {
        lemma_occurrences_concat(x, y, tag_at(i));
    }
    assert(tally_spec(x + y) =~= merge_spec(tally_spec(x), tally_spec(y)));
}

/// However a column's tags are split into two batches and in whichever order
/// the batch tallies are merged, the column resolves to the same tag.
pub proof fn lemma_resolve_batch_order(x: Seq<TypeTag>, y: Seq<TypeTag>, policy: Policy)
    ensures
        resolve_spec(merge_spec(tally_spec(x), tally_spec(y)), policy) == resolve_spec(
            tally_spec(x + y),
            policy,
        ),
        resolve_spec(merge_spec(tally_spec(y), tally_spec(x)), policy) == resolve_spec(
            tally_spec(x + y),
            policy,
        ),
{
    lemma_tally_concat(x, y);
    lemma_merge_commutative(tally_spec(x), tally_spec(y));
}

/// The merge of a sequence of tallies, first to last, starting from the
/// empty tally.
pub open spec fn merge_all(ts: Seq<Seq<u64>>) -> Seq<u64>
    decreases ts.len(),
{
    if ts.len() == 0 {
        empty_tally()
    } else {
        merge_spec(ts.first(), merge_all(ts.drop_first()))
    }
}

/// The tally of each batch.
pub open spec fn batch_tallies(batches: Seq<Seq<TypeTag>>) -> Seq<Seq<u64>> {
    batches.map_values(|b: Seq<TypeTag>| tally_spec(b))
}

proof fn lemma_occurrences_multiset(x: Seq<TypeTag>, t: TypeTag)
    ensures
        occurrences(x, t) == x.to_multiset().count(t),
    decreases x.len(),
{
    if x.len() == 0 {
        x.to_multiset_ensures();
    } else {
        lemma_occurrences_multiset(x.drop_last(), t);
        x.drop_last().to_multiset_ensures();
        assert(x =~= x.drop_last().push(x.last()));
    }
}

/// A tally depends only on which tags occur how often, not on their order.
pub proof fn lemma_tally_multiset(x: Seq<TypeTag>, y: Seq<TypeTag>)
    requires
        x.to_multiset() == y.to_multiset(),
    ensures
        tally_spec(x) == tally_spec(y),
{
    assert forall|i: int| 0 <= i < TAG_COUNT implies #[trigger] tally_spec(x)[i] == tally_spec(
        y,
    )[i] by {
        lemma_occurrences_multiset(x, tag_at(i));
        lemma_occurrences_multiset(y, tag_at(i));
    }
    assert(tally_spec(x) =~= tally_spec(y));
}

/// Merging the tallies of consecutive batches gives the tally of all their
/// values together.
pub proof fn lemma_merge_all_flatten(batches: Seq<Seq<TypeTag>>)
    ensures
        merge_all(batch_tallies(batches)) == tally_spec(batches.flatten()),
    decreases batches.len(),
{
    if batches.len() == 0 {
        lemma_merge_empty(empty_tally());
    } else {
        lemma_merge_all_flatten(batches.drop_first());
        assert(batch_tallies(batches).drop_first() =~= batch_tallies(batches.drop_first()));
        lemma_tally_concat(batches.first(), batches.drop_first().flatten());
    }
}

/// However a column's values are split into batches and in whatever order
/// the batches are taken, merging their tallies gives the same tally, and so
/// the same resolved tag: two batch sequences holding the same values (as a
/// multiset) agree.
pub proof fn lemma_batches_any_order(
    batches: Seq<Seq<TypeTag>>,
    others: Seq<Seq<TypeTag>>,
    policy: Policy,
)
    requires
        batches.flatten().to_multiset() == others.flatten().to_multiset(),
    ensures
        merge_all(batch_tallies(batches)) == merge_all(batch_tallies(others)),
        resolve_spec(merge_all(batch_tallies(batches)), policy) == resolve_spec(
            merge_all(batch_tallies(others)),
            policy,
        ),
{
    lemma_merge_all_flatten(batches);
    lemma_merge_all_flatten(others);
    lemma_tally_multiset(batches.flatten(), others.flatten());
}

} // verus!
