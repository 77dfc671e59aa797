use vstd::prelude::*;

verus! {

/// A block height on a Tendermint-style chain: the revision number (bumped
/// by chain upgrades) paired with the block number within that revision.
/// Heights are ordered lexicographically on `(revision_number,
/// revision_height)`; the consensus-state archive never collapses across
/// revision numbers.
#[derive(Clone, Copy, PartialEq, Eq, Structural, Debug)]
pub struct Height {
    pub revision_number: u64,
    pub revision_height: u64,
}

impl Height {
    /// Lexicographic order: revision number first, then revision height.
    pub open spec fn spec_le(self, other: Height) -> bool {
        self.revision_number < other.revision_number || (self.revision_number
            == other.revision_number && self.revision_height <= other.revision_height)
    }

    pub open spec fn spec_lt(self, other: Height) -> bool {
        self.spec_le(other) && self != other
    }

    pub fn new(revision_number: u64, revision_height: u64) -> (r: Height)
        ensures
            r == (Height { revision_number, revision_height }),
    {
        Height { revision_number, revision_height }
    }

    /// The least legitimate height of a revision. Revision height zero never
    /// names a real block, so the least height of revision zero doubles as
    /// the frozen-client marker.
    pub fn min(revision_number: u64) -> (r: Height)
        ensures
            r == (Height { revision_number, revision_height: 1u64 }),
    {
        Height { revision_number, revision_height: 1 }
    }

    pub fn le(&self, other: &Height) -> (r: bool)
        ensures
            r == self.spec_le(*other),
    {
        self.revision_number < other.revision_number || (self.revision_number
            == other.revision_number && self.revision_height <= other.revision_height)
    }

    pub fn lt(&self, other: &Height) -> (r: bool)
        ensures
            r == self.spec_lt(*other),
    {
        self.revision_number < other.revision_number || (self.revision_number
            == other.revision_number && self.revision_height < other.revision_height)
    }
}

/// The reserved marker stored as `frozen_height` once misbehaviour has been
/// observed: the least height of revision zero, which no legitimate block
/// occupies.
pub open spec fn spec_frozen_marker() -> Height {
    Height { revision_number: 0, revision_height: 1 }
}

/// A sequence of heights in ascending lexicographic order.
pub open spec fn heights_sorted(s: Seq<Height>) -> bool {
    forall|i: int, j: int| 0 <= i <= j < s.len() ==> s[i].spec_le(s[j])
}

/// Sorts `heights` ascending by the lexicographic order, in place, keeping
/// exactly the same elements.
pub fn sort_heights(heights: &mut Vec<Height>)
    ensures
        heights_sorted(final(heights)@),
        final(heights)@.to_multiset() == old(heights)@.to_multiset(),
        final(heights)@.len() == old(heights)@.len(),
        forall|h: Height| final(heights)@.contains(h) <==> old(heights)@.contains(h),
        old(heights)@.no_duplicates() ==> final(heights)@.no_duplicates(),
{
    broadcast use vstd::seq_lib::group_to_multiset_ensures;

    let ghost orig: Seq<Height> = heights@;
    let n: usize = heights.len();
    if n > 1 {
        let mut i: usize = 1;
        while i < n
            invariant
                1 <= i <= n,
                n == heights@.len(),
                forall|p: int, q: int| 0 <= p <= q < i ==> heights@[p].spec_le(heights@[q]),
                heights@.to_multiset() == orig.to_multiset(),
            decreases n - i,
        {
            let mut j: usize = i;
            while j > 0 && !heights[j - 1].le(&heights[j])
                invariant
                    0 <= j <= i < n,
                    n == heights@.len(),
                    heights@.to_multiset() == orig.to_multiset(),
                    forall|p: int, q: int|
                        0 <= p <= q <= i && q != j ==> heights@[p].spec_le(heights@[q]),
                decreases j,
            {
                let ghost before: Seq<Height> = heights@;
                let tmp: Height = heights[j - 1];
                let next: Height = heights[j];
                heights.set(j - 1, next);
                heights.set(j, tmp);
                proof {
                    assert(heights@ =~= before.update(j - 1, before[j as int]).update(
                        j as int, before[j - 1]));
                    lemma_swap_preserves_multiset(before, heights@, j - 1, j as int);
                    assert forall|p: int, q: int|
                        0 <= p <= q <= i && q != j - 1 implies heights@[p].spec_le(
                        heights@[q]) by {
                        assert(before[j - 1].spec_le(before[j - 1]));
                        if p == j - 1 && q >= j + 1 {
                            assert(before[j as int].spec_le(before[q]));
                        }
                    }
                }
                j = j - 1;
            }
            proof {
                assert forall|p: int, q: int| 0 <= p <= q <= i implies heights@[p].spec_le(
                    heights@[q]) by {
                    if q == j {
                        if p < j {
                            assert(heights@[p].spec_le(heights@[j - 1]));
                            assert(heights@[j - 1].spec_le(heights@[j as int]));
                        }
                    }
                }
            }
            i = i + 1;
        }
    }
    proof {
        assert(forall|h: Height| heights@.contains(h) <==> orig.contains(h)) by {
            assert(forall|h: Height| heights@.contains(h) <==> heights@.to_multiset().count(h)
                > 0);
            assert(forall|h: Height| orig.contains(h) <==> orig.to_multiset().count(h) > 0);
        }
        if orig.no_duplicates() {
            orig.lemma_multiset_has_no_duplicates();
            heights@.lemma_multiset_has_no_duplicates_conv();
        }
    }
}

/// Swapping two positions of a sequence leaves its multiset unchanged.
proof fn lemma_swap_preserves_multiset(before: Seq<Height>, after: Seq<Height>, a: int, b: int)
    requires
        0 <= a < b < before.len(),
        after =~= before.update(a, before[b]).update(b, before[a]),
    ensures
        after.to_multiset() == before.to_multiset(),
{
    broadcast use vstd::seq_lib::group_to_multiset_ensures;

    broadcast use vstd::multiset::group_multiset_properties;

    let mid = before.update(a, before[b]);
    vstd::seq_lib::to_multiset_update(before, a, before[b]);
    vstd::seq_lib::to_multiset_update(mid, b, before[a]);
    assert(mid[b] == before[b]);
    assert(before.to_multiset().count(before[a]) > 0) by {
        assert(before.contains(before[a]));
    }
    assert(before.to_multiset().count(before[b]) > 0) by {
        assert(before.contains(before[b]));
    }
    assert(after.to_multiset() =~= before.to_multiset());
}

} // verus!
