use vstd::prelude::*;
use crate::certificate::NonEmpty;
use crate::container::{exchanged, scope, Container};
use crate::index::Index;
use crate::order::{
    at_most, between, first_is_least, is_total_order, le, lemma_exchange_permutes, lemma_le_reflexive,
    lemma_le_total, lemma_le_transitive, lemma_partition_survives,
    lemma_permuted_within_transitive, lemma_permuted_within_widen, partitioned_at, permutation,
    permuted_within, sorted, sorted_within,
};
use crate::range::Range;
use crate::storage::{ContiguousMut, GetUnchecked};

verus! {

/// Which of the offsets `l`, `m` and `r` holds the median of the three
/// elements there: `m` where the three are in order, and on equal elements the
/// offset that the comparisons reach first.
pub open spec fn median_index<T: Ord>(s: Seq<T>, l: int, m: int, r: int) -> int {
    if le(s[l], s[m]) {
        if le(s[m], s[r]) {
            m
        } else if le(s[l], s[r]) {
            r
        } else {
            l
        }
    } else {
        if le(s[l], s[r]) {
            l
        } else if le(s[m], s[r]) {
            r
        } else {
            m
        }
    }
}

/// Where the end of the working range `[start, end)` comes to rest when it is
/// moved down past every element that comes later than the one at `lo`: at
/// the first element that does not, or at `start + 1` where all of them do.
pub open spec fn end_cursor<T: Ord>(s: Seq<T>, lo: int, start: int, end: int) -> int
    decreases end - start,
{
    if end - 1 > start && !le(s[end - 1], s[lo]) {
        end_cursor(s, lo, start, end - 1)
    } else {
        end
    }
}

/// The sequence and the start of the working range once the two cursors of
/// the range `[start, end)` have met. The element at `lo` is what the others
/// are compared with, whichever element stands there at the time. An element
/// at the start that comes before it is passed over. Otherwise the end moves
/// down as `end_cursor` says; the elements at the two cursors are exchanged
/// and the start moves up, unless the end found nothing to exchange, which
/// ends the walk, as does a range of one element.
pub open spec fn scanned<T: Ord>(s: Seq<T>, lo: int, start: int, end: int) -> (Seq<T>, int)
    decreases end - start,
{
    if le(s[lo], s[start]) {
        let stop = end_cursor(s, lo, start, end);
        if !le(s[stop - 1], s[lo]) {
            (s, start)
        } else if start + 1 < stop <= end {
            scanned(exchanged(s, start, stop - 1), lo, start + 1, stop)
        } else {
            (exchanged(s, start, stop - 1), start)
        }
    } else if start + 1 < end {
        scanned(s, lo, start + 1, end)
    } else {
        (s, start)
    }
}

/// What `partition` makes of the elements of `s` from `lo` up to `hi`, and
/// the offset that it returns: the median of the first, the middle and the
/// last element is exchanged with the first, and the range is walked from
/// both ends as `scanned` says.
pub open spec fn partitioned<T: Ord>(s: Seq<T>, lo: int, hi: int) -> (Seq<T>, int) {
    let median = median_index(s, lo, lo + (hi - lo) / 2, hi - 1);
    scanned(exchanged(s, lo, median), lo, lo, hi)
}

/// The end cursor stays within the range that it walks, above its start.
pub proof fn lemma_end_cursor_within<T: Ord>(s: Seq<T>, lo: int, start: int, end: int)
    requires
        start < end,
    ensures
        start < end_cursor(s, lo, start, end) <= end,
    decreases end - start,
{
    if end - 1 > start && !le(s[end - 1], s[lo]) {
        lemma_end_cursor_within(s, lo, start, end - 1);
    }
}

/// Of the three indices, one whose element lies between the elements at the
/// other two: the median of the three, found in three comparisons at most.
pub fn median_of_three<'id, C>(
    v: &Container<'id, C>,
    l: Index<'id>,
    m: Index<'id>,
    r: Index<'id>,
) -> (median: Index<'id>) where C: GetUnchecked, C::Item: Ord
    requires
        is_total_order::<C::Item>(),
        l@ < v@.len(),
        m@ < v@.len(),
        r@ < v@.len(),
    ensures
        median@ == median_index(v@, l@ as int, m@ as int, r@ as int),
        (median@ == l@ && between(v@[m@ as int], v@[l@ as int], v@[r@ as int])) || (median@ == m@
            && between(v@[l@ as int], v@[m@ as int], v@[r@ as int])) || (median@ == r@ && between(
            v@[l@ as int],
            v@[r@ as int],
            v@[m@ as int],
        )),
{
    proof {
        lemma_le_total(v@[l@ as int], v@[m@ as int]);
        lemma_le_total(v@[m@ as int], v@[r@ as int]);
        lemma_le_total(v@[l@ as int], v@[r@ as int]);
    }
    if at_most(v.index(l), v.index(m)) {
        if at_most(v.index(m), v.index(r)) {
            m
        } else if at_most(v.index(l), v.index(r)) {
            r
        } else {
            l
        }
    } else {
        if at_most(v.index(l), v.index(r)) {
            l
        } else if at_most(v.index(m), v.index(r)) {
            r
        } else {
            m
        }
    }
}

/// Rearranges the elements of `range` around the median of its first, its
/// middle and its last element, and returns the index `p` at which the
/// range falls in two: no element before `p` comes later than any from `p`
/// on. The median is put first, and the range is then walked from both ends
/// by a start and an end cursor, exactly as `partitioned` says; `p` is where
/// the start cursor comes to rest.
///
/// Where `p` is the start of the range, the element there comes strictly
/// before all others; on a range of two or more this does not happen when
/// the first element was strictly the least already, so that sorting the
/// two parts in turn comes to an end.
pub fn partition<'id, C>(v: &mut Container<'id, C>, range: Range<'id, NonEmpty>) -> (p: Index<
    'id,
    NonEmpty,
>) where C: ContiguousMut + GetUnchecked, C::Item: Ord
    requires
        is_total_order::<C::Item>(),
        range@.end <= old(v)@.len(),
    ensures
        (final(v)@, p@ as int) == partitioned(old(v)@, range@.start as int, range@.end as int),
        range@.start <= p@ < range@.end,
        permuted_within(old(v)@, final(v)@, range@.start as int, range@.end as int),
        partitioned_at(final(v)@, range@.start as int, p@ as int, range@.end as int),
        p@ == range@.start ==> first_is_least(final(v)@, range@.start as int, range@.end as int),
        range@.len() >= 2 && first_is_least(old(v)@, range@.start as int, range@.end as int)
            ==> p@ > range@.start,
{
    let ghost entry = v@;
    let ghost lo = range@.start as int;
    let ghost hi = range@.end as int;
    let (l, m, r) = (range.first(), range.upper_middle(), range.last());
    let mut pivot = median_of_three(v, l, m, r);
    let ghost witness = pivot@ as int;
    let ghost strict = hi - lo >= 2 && first_is_least(entry, lo, hi);
    v.swap(range.first(), pivot);
    proof {
        lemma_exchange_permutes(entry, lo, witness, lo, hi);
        if strict {
            assert(!le(entry[m@ as int], entry[lo]));
            assert(!le(entry[r@ as int], entry[lo]));
            assert(witness > lo);
            lemma_le_total(entry[witness], entry[lo]);
        }
    }
    pivot = range.first();
    let mut work = range;
    let ghost goal = partitioned(entry, lo, hi);
    'main: loop
        invariant_except_break
            scanned(v@, lo, work@.start as int, work@.end as int) == goal,
            is_total_order::<C::Item>(),
            lo <= work@.start < work@.end <= hi <= v@.len(),
            pivot@ == lo,
            permuted_within(entry, v@, lo, hi),
            forall|i: int| lo <= i < work@.start ==> le(#[trigger] v@[i], v@[lo]),
            forall|j: int| work@.end <= j < hi ==> le(v@[lo], #[trigger] v@[j]),
            work@.start > lo ==> le(v@[lo], v@[work@.end - 1]),
            work@.start == lo ==> forall|j: int|
                work@.end <= j < hi ==> !le(#[trigger] v@[j], v@[lo]),
            strict ==> work@.start > lo || (lo < witness < work@.end && le(v@[witness], v@[lo])),
        ensures
            (v@, work@.start as int) == goal,
            lo <= work@.start,
            work@.start + 1 == work@.end,
            work@.end <= hi,
            permuted_within(entry, v@, lo, hi),
            partitioned_at(v@, lo, work@.start as int, hi),
            work@.start == lo ==> first_is_least(v@, lo, hi),
            strict ==> work@.start > lo,
        decreases work@.len(),
    {
        let ghost width = work@.len();
        let ghost stop = end_cursor(v@, lo, work@.start as int, work@.end as int);
        let ghost top = work@.end as int;
        let ghost held = v@;
        if at_most(v.index(pivot), v.index(work.first())) {
            loop
                invariant_except_break
                    v@ == held,
                    work@.end <= top,
                    scanned(held, lo, work@.start as int, top) == goal,
                    end_cursor(v@, lo, work@.start as int, work@.end as int) == stop,
                    stop == end_cursor(held, lo, work@.start as int, top),
                    work@.len() <= width,
                    is_total_order::<C::Item>(),
                    lo <= work@.start < work@.end <= hi <= v@.len(),
                    pivot@ == lo,
                    permuted_within(entry, v@, lo, hi),
                    forall|i: int| lo <= i < work@.start ==> le(#[trigger] v@[i], v@[lo]),
                    forall|j: int| work@.end <= j < hi ==> le(v@[lo], #[trigger] v@[j]),
                    le(v@[lo], v@[work@.start as int]),
                    work@.start == lo ==> forall|j: int|
                        work@.end <= j < hi ==> !le(#[trigger] v@[j], v@[lo]),
                    strict ==> work@.start > lo || (lo < witness < work@.end && le(
                        v@[witness],
                        v@[lo],
                    )),
                ensures
                    work@.start + 1 < work@.end ==> scanned(
                        v@,
                        lo,
                        work@.start as int + 1,
                        work@.end as int,
                    ) == goal,
                    work@.start + 1 >= work@.end ==> (v@, work@.start as int) == goal,
                    work@.len() <= width,
                    is_total_order::<C::Item>(),
                    lo <= work@.start < work@.end <= hi <= v@.len(),
                    pivot@ == lo,
                    permuted_within(entry, v@, lo, hi),
                    forall|i: int| lo <= i <= work@.start ==> le(#[trigger] v@[i], v@[lo]),
                    forall|j: int| work@.end <= j < hi ==> le(v@[lo], #[trigger] v@[j]),
                    le(v@[lo], v@[work@.end - 1]),
                    work@.start == lo && work@.end == lo + 1 ==> first_is_least(v@, lo, hi),
                    strict ==> work@.start > lo || work@.end - 1 > lo,
                decreases work@.len(),
            {
                let ghost before = v@;
                let ghost s = work@.start as int;
                let ghost e = work@.end as int;
                if at_most(v.index(work.last()), v.index(pivot)) {
                    v.swap(work.first(), work.last());
                    proof {
                        lemma_exchange_permutes(before, s, e - 1, lo, hi);
                        lemma_permuted_within_transitive(entry, before, v@, lo, hi);
                        lemma_le_reflexive(v@[lo]);
                        if s == lo {
                            assert forall|j: int| e <= j < hi implies le(
                                v@[lo],
                                #[trigger] v@[j],
                            ) by {
                                lemma_le_transitive(before[e - 1], before[lo], before[j]);
                            }
                            if e == lo + 1 {
                                assert(v@ =~= before);
                            }
                        }
                    }
                    break ;
                }
                proof {
                    lemma_le_total(before[e - 1], before[lo]);
                    lemma_le_reflexive(before[lo]);
                }
                if !work.advance_back() {
                    proof {
                        assert(s > lo);
                        assert forall|i: int, j: int| lo <= i < s <= j < hi implies le(
                            #[trigger] v@[i],
                            #[trigger] v@[j],
                        ) by {
                            lemma_le_transitive(v@[i], v@[lo], v@[j]);
                        }
                    }
                    break 'main;
                }
            }
        } else {
            proof {
                lemma_le_total(v@[lo], v@[work@.start as int]);
                lemma_le_reflexive(v@[lo]);
            }
        }
        if !work.advance() {
            proof {
                let s = work@.start as int;
                assert forall|i: int, j: int| lo <= i < s <= j < hi implies le(
                    #[trigger] v@[i],
                    #[trigger] v@[j],
                ) by {
                    lemma_le_transitive(v@[i], v@[lo], v@[j]);
                }
            }
            break ;
        }
    }
    work.first()
}

/// Sorts the elements of `range` into non-decreasing order; the other
/// elements stay where they are.
pub fn _quicksort<'id, C>(v: &mut Container<'id, C>, range: Range<'id, NonEmpty>) where
    C: ContiguousMut + GetUnchecked,
    C::Item: Ord,

    requires
        is_total_order::<C::Item>(),
        range@.end <= old(v)@.len(),
    ensures
        permuted_within(old(v)@, final(v)@, range@.start as int, range@.end as int),
        sorted_within(final(v)@, range@.start as int, range@.end as int),
    decreases
            range@.len(),
            (if first_is_least(old(v)@, range@.start as int, range@.end as int) {
                0nat
            } else {
                1nat
            }),
{
    let ghost entry = v@;
    let ghost lo = range@.start as int;
    let ghost hi = range@.end as int;
    // A range of one element is sorted as it stands.
    if range.len() > 1 {
        let p = partition(v, range);
        let ghost parted = v@;
        let ghost at = p@ as int;
        let (lhs, rhs) = range.split_index(p);
        // The elements before `p` may be none at all: the left part is
        // certified only where it holds one.
        if !lhs.is_empty() {
            _quicksort(v, lhs.nonempty_unchecked());
        }
        let ghost left_done = v@;
        proof {
            lemma_partition_survives(parted, left_done, lo, at, hi, lo, at);
            lemma_permuted_within_widen(parted, left_done, lo, at, lo, hi);
            lemma_permuted_within_transitive(entry, parted, left_done, lo, hi);
        }
        _quicksort(v, rhs);
        proof {
            lemma_partition_survives(left_done, v@, lo, at, hi, at, hi);
            lemma_permuted_within_widen(left_done, v@, at, hi, lo, hi);
            lemma_permuted_within_transitive(entry, left_done, v@, lo, hi);
            assert forall|i: int, j: int| lo <= i < j < hi implies le(
                #[trigger] v@[i],
                #[trigger] v@[j],
            ) by {
                if j < at {
                    assert(le(left_done[i], left_done[j]));
                }
            }
        }
    } else {
        assert(entry.subrange(lo, hi) =~= entry.subrange(lo, hi));
    }
}

/// Sorts `v` into non-decreasing order, in place.
pub fn qsort<T: Ord>(v: &mut Vec<T>)
    requires
        is_total_order::<T>(),
    ensures
        sorted(final(v)@),
        permutation(old(v)@, final(v)@),
{
    let mut storage: Vec<T> = Vec::new();
    core::mem::swap(v, &mut storage);
    let ghost entry = storage@;
    let in_order = scope(
        storage,
        |scoped: Container<'_, Vec<T>>| -> (out: Vec<T>)
            requires
                is_total_order::<T>(),
            ensures
                sorted(out@),
                permutation(scoped@, out@)
            {
                let mut scoped = scoped;
                let ghost before = scoped@;
                let range = scoped.range();
                if range.len() > 1 {
                    // The range holds two elements or more: no need to test it again.
                    let range = range.nonempty_unchecked();
                    _quicksort(&mut scoped, range);
                }
                proof {
                    let n = before.len() as int;
                    assert(before.subrange(0, n) =~= before);
                    assert(scoped@.subrange(0, n) =~= scoped@);
                }
                scoped.into_inner()
            },
    );
    *v = in_order;
}

} // verus!
