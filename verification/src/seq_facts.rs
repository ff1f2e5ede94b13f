//! Facts about sequences that the track lists and queues rest on.

use vstd::prelude::*;

verus! {

/// The index of the first item of `s` that satisfies `pred`, or the length
/// of `s` where none does.
pub open spec fn first_match<A>(s: Seq<A>, pred: spec_fn(A) -> bool) -> int
    decreases s.len(),
{
    if s.len() == 0 || pred(s[0]) {
        0
    } else {
        1 + first_match(s.subrange(1, s.len() as int), pred)
    }
}

/// `first_match` is the one index with no match before it and a match, or
/// the end of the list, at it.
pub proof fn lemma_first_match_unique<A>(s: Seq<A>, pred: spec_fn(A) -> bool, k: int)
    requires
        0 <= k <= s.len(),
        forall|j: int| 0 <= j < k ==> !pred(#[trigger] s[j]),
        k == s.len() || pred(s[k]),
    ensures
        first_match(s, pred) == k,
    decreases s.len(),
{
    if s.len() == 0 || pred(s[0]) {
        if k > 0 {
            assert(!pred(s[0]));
        }
    } else {
        let tail = s.subrange(1, s.len() as int);
        assert forall|j: int| 0 <= j < k - 1 implies !pred(#[trigger] tail[j]) by {
            assert(tail[j] == s[j + 1]);
        }
        lemma_first_match_unique(tail, pred, k - 1);
    }
}

/// `first_match` lies within the list, with no match before it.
pub proof fn lemma_first_match_bounds<A>(s: Seq<A>, pred: spec_fn(A) -> bool)
    ensures
        0 <= first_match(s, pred) <= s.len(),
        forall|j: int| 0 <= j < first_match(s, pred) ==> !pred(#[trigger] s[j]),
        first_match(s, pred) == s.len() || pred(s[first_match(s, pred)]),
    decreases s.len(),
{
    if s.len() == 0 || pred(s[0]) {
    } else {
        let tail = s.subrange(1, s.len() as int);
        lemma_first_match_bounds(tail, pred);
        let k = first_match(tail, pred);
        assert forall|j: int| 0 <= j < k + 1 implies !pred(#[trigger] s[j]) by {
            if j > 0 {
                assert(tail[j - 1] == s[j]);
            }
        }
        if k < tail.len() {
            assert(tail[k] == s[k + 1]);
        }
    }
}

/// The test for a start frame later than `start`.
pub open spec fn later_than(start: u64) -> spec_fn(u64) -> bool {
    |s: u64| s > start
}

/// The index at which an item starting at `start` joins a list of start
/// frames: past every item that starts no later, before the first one that
/// starts later.
pub open spec fn first_later(starts: Seq<u64>, start: u64) -> int {
    first_match(starts, later_than(start))
}

/// Whether a list of start frames is in ascending order.
pub open spec fn ascending(starts: Seq<u64>) -> bool {
    forall|i: int, j: int| 0 <= i <= j < starts.len() ==> starts[i] <= starts[j]
}

/// Filtering one more item of a list either appends it or leaves the
/// filtered list as it was.
pub proof fn lemma_filter_step<A>(s: Seq<A>, pred: spec_fn(A) -> bool, j: int)
    requires
        0 <= j < s.len(),
    ensures
        s.subrange(0, j + 1).filter(pred) == if pred(s[j]) {
            s.subrange(0, j).filter(pred).push(s[j])
        } else {
            s.subrange(0, j).filter(pred)
        },
{
    reveal_with_fuel(Seq::filter, 2);
    assert(s.subrange(0, j + 1).drop_last() =~= s.subrange(0, j));
}

} // verus!
