use vstd::prelude::*;
use vstd::relations::{sorted_by, total_ordering};
use vstd::seq_lib::lemma_multiset_commutative;
use vstd::seq_lib::lemma_sorted_unique;
use vstd::seq_lib::to_multiset_update;
use vstd::std_specs::cmp::{PartialOrdIs, PartialOrdSpec};
use crate::container::exchanged;

verus! {

/// `a` comes no later than `b` in the order of `T`.
pub open spec fn le<T: Ord>(a: T, b: T) -> bool {
    a.is_le(&b)
}

/// The order of `T` as a relation.
pub open spec fn leq<T: Ord>() -> spec_fn(T, T) -> bool {
    |a: T, b: T| le(a, b)
}

/// The comparisons of `T` compute its order, and that order is total:
/// reflexive, antisymmetric, transitive, and defined on every pair.
pub open spec fn is_total_order<T: Ord>() -> bool {
    &&& T::obeys_partial_cmp_spec()
    &&& total_ordering(leq::<T>())
}

/// `s` is in non-decreasing order.
pub open spec fn sorted<T: Ord>(s: Seq<T>) -> bool {
    sorted_by(s, leq::<T>())
}

/// `a` and `b` hold the same elements, each as many times in one as in the
/// other.
pub open spec fn permutation<T>(a: Seq<T>, b: Seq<T>) -> bool {
    a.to_multiset() == b.to_multiset()
}

/// The elements of `s` at the offsets from `lo` up to `hi` are in
/// non-decreasing order.
pub open spec fn sorted_within<T: Ord>(s: Seq<T>, lo: int, hi: int) -> bool {
    forall|i: int, j: int| lo <= i < j < hi ==> le(#[trigger] s[i], #[trigger] s[j])
}

/// `a` and `b` differ at most at the offsets from `lo` up to `hi`, and hold
/// the same elements there, each as many times in one as in the other.
pub open spec fn permuted_within<T>(a: Seq<T>, b: Seq<T>, lo: int, hi: int) -> bool {
    &&& a.len() == b.len()
    &&& forall|k: int| 0 <= k < a.len() && !(lo <= k < hi) ==> a[k] == b[k]
    &&& permutation(a.subrange(lo, hi), b.subrange(lo, hi))
}

/// No element of `s` from `lo` up to `p` comes later than any from `p` up to
/// `hi`.
pub open spec fn partitioned_at<T: Ord>(s: Seq<T>, lo: int, p: int, hi: int) -> bool {
    forall|i: int, j: int| lo <= i < p <= j < hi ==> le(#[trigger] s[i], #[trigger] s[j])
}

/// `x` lies between `a` and `b`, whichever of the two comes first.
pub open spec fn between<T: Ord>(a: T, x: T, b: T) -> bool {
    (le(a, x) && le(x, b)) || (le(b, x) && le(x, a))
}

/// The element of `s` at `lo` comes strictly before every other one up to
/// `hi`.
pub open spec fn first_is_least<T: Ord>(s: Seq<T>, lo: int, hi: int) -> bool {
    forall|j: int| lo < j < hi ==> !le(#[trigger] s[j], s[lo])
}

/// Whether `a` comes no later than `b`.
pub fn at_most<T: Ord>(a: &T, b: &T) -> (holds: bool)
    ensures
        T::obeys_partial_cmp_spec() ==> holds == le(*a, *b),
{
    *a <= *b
}

/// A total order relates every element to itself.
pub proof fn lemma_le_reflexive<T: Ord>(a: T)
    requires
        is_total_order::<T>(),
    ensures
        le(a, a),
{
    assert(leq::<T>()(a, a));
}

/// In a total order, of two elements one comes no later than the other.
pub proof fn lemma_le_total<T: Ord>(a: T, b: T)
    requires
        is_total_order::<T>(),
    ensures
        le(a, b) || le(b, a),
{
    assert(leq::<T>()(a, b) || leq::<T>()(b, a));
}

/// In a total order, what comes no later than an element comes no later than
/// whatever that element comes no later than.
pub proof fn lemma_le_transitive<T: Ord>(a: T, b: T, c: T)
    requires
        is_total_order::<T>(),
        le(a, b),
        le(b, c),
    ensures
        le(a, c),
{
    assert(leq::<T>()(a, b) && leq::<T>()(b, c));
}

/// Exchanging two elements between `lo` and `hi` permutes what lies there and
/// leaves the rest alone.
pub proof fn lemma_exchange_permutes<T>(s: Seq<T>, i: int, j: int, lo: int, hi: int)
    requires
        0 <= lo <= i < hi <= s.len(),
        lo <= j < hi,
    ensures
        permuted_within(s, exchanged(s, i, j), lo, hi),
{
    let part = s.subrange(lo, hi);
    let once = part.update(i - lo, s[j]);
    let twice = once.update(j - lo, s[i]);
    assert(exchanged(s, i, j).subrange(lo, hi) =~= twice);
    to_multiset_update(part, i - lo, s[j]);
    to_multiset_update(once, j - lo, s[i]);
    assert(part[i - lo] == s[i] && once[j - lo] == s[j]);
    assert(twice.to_multiset() =~= part.to_multiset()) by {
        broadcast use vstd::multiset::group_multiset_axioms;
        broadcast use vstd::seq_lib::group_to_multiset_ensures;

        assert(part.contains(s[i]));
        let all = part.to_multiset();
        let step = all.insert(s[j]).remove(s[i]);
        assert(once.to_multiset() == step);
        assert(twice.to_multiset() == step.insert(s[i]).remove(s[j]));
        assert forall|x: T| step.insert(s[i]).remove(s[j]).count(x) == all.count(x) by {
            assert(all.count(s[i]) > 0);
            assert(all.insert(s[j]).count(s[i]) > 0);
            assert(step.insert(s[i]).count(s[j]) > 0);
        }
    }
}

/// Two rearrangements within the same bounds, one after the other, are a
/// rearrangement within those bounds.
pub proof fn lemma_permuted_within_transitive<T>(
    a: Seq<T>,
    b: Seq<T>,
    c: Seq<T>,
    lo: int,
    hi: int,
)
    requires
        permuted_within(a, b, lo, hi),
        permuted_within(b, c, lo, hi),
    ensures
        permuted_within(a, c, lo, hi),
{
}

/// A rearrangement within bounds is one within any wider bounds.
pub proof fn lemma_permuted_within_widen<T>(
    a: Seq<T>,
    b: Seq<T>,
    lo: int,
    hi: int,
    wide_lo: int,
    wide_hi: int,
)
    requires
        permuted_within(a, b, lo, hi),
        0 <= wide_lo <= lo <= hi <= wide_hi <= a.len(),
    ensures
        permuted_within(a, b, wide_lo, wide_hi),
{
    assert(a.subrange(wide_lo, lo) =~= b.subrange(wide_lo, lo));
    assert(a.subrange(hi, wide_hi) =~= b.subrange(hi, wide_hi));
    assert(a.subrange(wide_lo, wide_hi) =~= a.subrange(wide_lo, lo) + a.subrange(lo, hi)
        + a.subrange(hi, wide_hi));
    assert(b.subrange(wide_lo, wide_hi) =~= b.subrange(wide_lo, lo) + b.subrange(lo, hi)
        + b.subrange(hi, wide_hi));
    lemma_multiset_commutative(a.subrange(wide_lo, lo), a.subrange(lo, hi));
    lemma_multiset_commutative(a.subrange(wide_lo, lo) + a.subrange(lo, hi), a.subrange(hi, wide_hi));
    lemma_multiset_commutative(b.subrange(wide_lo, lo), b.subrange(lo, hi));
    lemma_multiset_commutative(b.subrange(wide_lo, lo) + b.subrange(lo, hi), b.subrange(hi, wide_hi));
}

/// After a rearrangement within bounds, each element within them is one that
/// was within them before.
pub proof fn lemma_permuted_within_origin<T>(a: Seq<T>, b: Seq<T>, lo: int, hi: int, k: int)
    requires
        permuted_within(a, b, lo, hi),
        0 <= lo <= k < hi <= a.len(),
    ensures
        exists|from: int| lo <= from < hi && a[from] == b[k],
{
    broadcast use vstd::seq_lib::group_to_multiset_ensures;

    let before = a.subrange(lo, hi);
    let after = b.subrange(lo, hi);
    assert(after[k - lo] == b[k]);
    assert(after.contains(b[k]));
    assert(after.to_multiset().count(b[k]) > 0);
    assert(before.to_multiset().count(b[k]) > 0);
    assert(before.contains(b[k]));
    let at = choose|at: int| 0 <= at < before.len() && before[at] == b[k];
    assert(a[at + lo] == b[k]);
}

/// A partition at `p` survives any rearrangement of the elements before `p`
/// among themselves, and any of those from `p` on among themselves.
pub proof fn lemma_partition_survives<T: Ord>(
    a: Seq<T>,
    b: Seq<T>,
    lo: int,
    p: int,
    hi: int,
    from: int,
    to: int,
)
    requires
        partitioned_at(a, lo, p, hi),
        0 <= lo <= p <= hi <= a.len(),
        permuted_within(a, b, from, to),
        (from == lo && to == p) || (from == p && to == hi),
    ensures
        partitioned_at(b, lo, p, hi),
{
    assert forall|i: int, j: int| lo <= i < p <= j < hi implies le(
        #[trigger] b[i],
        #[trigger] b[j],
    ) by {
        if from == lo && to == p {
            lemma_permuted_within_origin(a, b, lo, p, i);
            let from_i = choose|from_i: int| lo <= from_i < p && a[from_i] == b[i];
            assert(le(a[from_i], a[j]));
        } else {
            lemma_permuted_within_origin(a, b, p, hi, j);
            let from_j = choose|from_j: int| p <= from_j < hi && a[from_j] == b[j];
            assert(le(a[i], a[from_j]));
        }
    }
}

/// Two sequences in non-decreasing order that hold the same elements are one
/// and the same.
pub proof fn lemma_sorted_permutation_unique<T: Ord>(a: Seq<T>, b: Seq<T>)
    requires
        is_total_order::<T>(),
        sorted(a),
        sorted(b),
        permutation(a, b),
    ensures
        a == b,
{
    lemma_sorted_unique(a, b, leq::<T>());
}

/// Sorting has one outcome: two sequences in non-decreasing order that are
/// both rearrangements of `s` are equal.
pub proof fn lemma_sort_is_determined<T: Ord>(s: Seq<T>, a: Seq<T>, b: Seq<T>)
    requires
        is_total_order::<T>(),
        sorted(a),
        permutation(s, a),
        sorted(b),
        permutation(s, b),
    ensures
        a == b,
{
    lemma_sorted_permutation_unique(a, b);
}

/// Sorting a sequence that is in non-decreasing order already leaves it as
/// it is.
pub proof fn lemma_sort_keeps_sorted<T: Ord>(s: Seq<T>, out: Seq<T>)
    requires
        is_total_order::<T>(),
        sorted(s),
        sorted(out),
        permutation(s, out),
    ensures
        out == s,
{
    lemma_sorted_permutation_unique(s, out);
}

/// Sorting the outcome of sorting gives that outcome again.
pub proof fn lemma_sort_is_idempotent<T: Ord>(s: Seq<T>, once: Seq<T>, twice: Seq<T>)
    requires
        is_total_order::<T>(),
        sorted(once),
        permutation(s, once),
        sorted(twice),
        permutation(once, twice),
    ensures
        twice == once,
{
    lemma_sorted_permutation_unique(once, twice);
}

/// The machine integers are totally ordered by their comparisons.
pub proof fn lemma_integers_are_totally_ordered()
    ensures
        is_total_order::<u8>(),
        is_total_order::<u16>(),
        is_total_order::<u32>(),
        is_total_order::<u64>(),
        is_total_order::<u128>(),
        is_total_order::<usize>(),
        is_total_order::<i8>(),
        is_total_order::<i16>(),
        is_total_order::<i32>(),
        is_total_order::<i64>(),
        is_total_order::<i128>(),
        is_total_order::<isize>(),
{
}

} // verus!
