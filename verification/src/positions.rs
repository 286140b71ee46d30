//! Element-position bookkeeping: the spec-level meaning of a merged
//! position-set result, and small lemmas about position sequences.

use vstd::prelude::*;

verus! {

/// A position list in ascending order; checkers produce their matching
/// positions this way, which also makes them duplicate-free.
pub open spec fn strictly_increasing(s: Seq<usize>) -> bool {
    forall|a: int, b: int| 0 <= a < b < s.len() ==> s[a] < s[b]
}

/// A position list without duplicates: what the tallying merge requires.
pub open spec fn distinct_positions(s: Seq<usize>) -> bool {
    forall|a: int, b: int| 0 <= a < b < s.len() ==> s[a] != s[b]
}

pub proof fn lemma_strictly_increasing_distinct(s: Seq<usize>)
    requires
        strictly_increasing(s),
    ensures
        distinct_positions(s),
{
}

/// The character of each per-condition list, seen as sequences.
pub open spec fn lists_view(lists: Seq<Vec<usize>>) -> Seq<Seq<usize>> {
    lists.map_values(|l: Vec<usize>| l@)
}

/// Position `pos` occurs in every one of the given lists.
pub open spec fn all_contain(lists: Seq<Seq<usize>>, pos: usize) -> bool {
    forall|k: int| 0 <= k < lists.len() ==> (#[trigger] lists[k]).contains(pos)
}

/// The merged nested result: some single element position is matched by
/// every condition. With no conditions at all this is vacuously true.
pub open spec fn merged_matches(lists: Seq<Seq<usize>>) -> bool {
    lists.len() == 0 || exists|pos: usize| #[trigger] all_contain(lists, pos)
}

/// How many of the first `k` lists contain `pos`.
pub open spec fn count_containing(lists: Seq<Seq<usize>>, k: int, pos: usize) -> nat
    decreases k,
{
    if k <= 0 {
        0nat
    } else {
        count_containing(lists, k - 1, pos) + (if lists[k - 1].contains(pos) {
            1nat
        } else {
            0nat
        })
    }
}

pub proof fn lemma_count_containing_bound(lists: Seq<Seq<usize>>, k: int, pos: usize)
    requires
        k >= 0,
    ensures
        count_containing(lists, k, pos) <= k,
    decreases k,
{
    if k > 0 {
        lemma_count_containing_bound(lists, k - 1, pos);
    }
}

/// A position counted by every list is one contained in every list.
pub proof fn lemma_count_containing_full(lists: Seq<Seq<usize>>, k: int, pos: usize)
    requires
        k >= 0,
    ensures
        (count_containing(lists, k, pos) == k) <==> (forall|j: int|
            0 <= j < k ==> (#[trigger] lists[j]).contains(pos)),
    decreases k,
{
    if k > 0 {
        lemma_count_containing_full(lists, k - 1, pos);
        lemma_count_containing_bound(lists, k - 1, pos);
    }
}

/// Appending one element extends a sequence's contents by exactly it.
pub proof fn lemma_push_contains(s: Seq<usize>, e: usize)
    ensures
        forall|x: usize| #[trigger] s.push(e).contains(x) <==> (s.contains(x) || x == e),
{
    assert forall|x: usize| #[trigger] s.push(e).contains(x) implies (s.contains(x) || x == e) by {
        let j = choose|j: int| 0 <= j < s.push(e).len() && s.push(e)[j] == x;
        if j < s.len() {
            assert(s[j] == x);
        }
    }
    assert forall|x: usize| (s.contains(x) || x == e) implies s.push(e).contains(x) by {
        if s.contains(x) {
            let j = choose|j: int| 0 <= j < s.len() && s[j] == x;
            assert(s.push(e)[j] == x);
        } else {
            assert(s.push(e)[s.len() as int] == e);
        }
    }
}

/// The prefix one longer contains exactly the old prefix plus the next
/// element.
pub proof fn lemma_take_step(s: Seq<usize>, j: int)
    requires
        0 <= j < s.len(),
    ensures
        forall|x: usize| #[trigger] s.take(j + 1).contains(x) <==> (s.take(j).contains(x) || x
            == s[j]),
{
    assert(s.take(j + 1) =~= s.take(j).push(s[j]));
    lemma_push_contains(s.take(j), s[j]);
}

/// The whole sequence is its own full prefix.
pub proof fn lemma_take_all(s: Seq<usize>)
    ensures
        s.take(s.len() as int) =~= s,
{
}

/// Appending an element above everything present keeps a list ascending.
pub proof fn lemma_push_increasing(s: Seq<usize>, e: usize)
    requires
        strictly_increasing(s),
        forall|j: int| 0 <= j < s.len() ==> s[j] < e,
    ensures
        strictly_increasing(s.push(e)),
{
    assert forall|a: int, b: int| 0 <= a < b < s.push(e).len() implies s.push(e)[a] < s.push(
        e,
    )[b] by {
        if b < s.len() {
        } else {
            assert(s.push(e)[a] == s[a]);
        }
    }
}

} // verus!
