use vstd::prelude::*;
use crate::brand::Id;
use crate::certificate::{Certificate, NonEmpty};
use crate::index::Index;
use crate::range::{Range, Span};
use crate::storage::{ContainerTrait, Contiguous, ContiguousMut, GetUnchecked, GetUncheckedMut};
use crate::ziprange::ZipRange;

verus! {

/// The sequence `s` with the elements at `i` and `j` exchanged.
pub open spec fn exchanged<T>(s: Seq<T>, i: int, j: int) -> Seq<T> {
    s.update(i, s[j]).update(j, s[i])
}

/// The sequence `s` with the element at `hi - 1` moved to `lo`, and those
/// from `lo` up to `hi - 1` moved one place up.
pub open spec fn rotated_up<T>(s: Seq<T>, lo: int, hi: int) -> Seq<T> {
    Seq::new(
        s.len(),
        |k: int|
            if k == lo {
                s[hi - 1]
            } else if lo < k < hi {
                s[k - 1]
            } else {
                s[k]
            },
    )
}

/// A container in the session `'id`: the one place where the indices and
/// ranges of that session are turned into elements.
pub struct Container<'id, C> {
    _id: Id<'id>,
    container: C,
}

impl<'id, C: ContainerTrait> View for Container<'id, C> {
    type V = Seq<C::Item>;

    closed spec fn view(&self) -> Seq<C::Item> {
        self.container.elements()
    }
}

impl<'id, C: ContainerTrait> Container<'id, C> {
    /// The number of elements.
    pub fn len(&self) -> (n: usize)
        ensures
            n == self@.len(),
    {
        self.container.base_len()
    }

    /// The range of all the offsets of the container.
    pub fn range(&self) -> (r: Range<'id>)
        ensures
            r@ == (Span { start: 0, end: self@.len() }),
    {
        Range::from(0, self.len())
    }

    /// The offsets before `index`, and those from `index` on, which keep its
    /// tag.
    pub fn split_at<P: Certificate>(&self, index: Index<'id, P>) -> (parts: (
        Range<'id>,
        Range<'id, P>,
    ))
        requires
            index@ <= self@.len(),
            P::certifies_nonempty() ==> index@ < self@.len(),
        ensures
            (parts.0@, parts.1@) == (Span { start: 0, end: self@.len() }).split(index@),
    {
        (Range::from(0, index.integer()), Range::from_any(index.integer(), self.len()))
    }

    /// The offsets that this container shares with `other`, from the first
    /// up to the length of the shorter of the two, as pairs of indices.
    pub fn zipped<'other, D: ContainerTrait>(&self, other: &Container<'other, D>) -> (zip: ZipRange<
        'id,
        'other,
    >)
        ensures
            zip@.start == 0,
            zip@.end == self@.len() || zip@.end == other@.len(),
            zip@.end <= self@.len(),
            zip@.end <= other@.len(),
    {
        let mine: usize = self.len();
        let theirs: usize = other.len();
        ZipRange::new(
            0,
            if mine <= theirs {
                mine
            } else {
                theirs
            },
        )
    }

    /// The storage, once the session is over.
    pub fn into_inner(self) -> (storage: C)
        ensures
            storage.elements() == self@,
    {
        self.container
    }

    /// The element at `index`.
    pub fn index(&self, index: Index<'id>) -> (item: &C::Item) where C: GetUnchecked
        requires
            index@ < self@.len(),
        ensures
            *item == self@[index@ as int],
    {
        self.container.unchecked(index.integer())
    }

    /// The element at `index`, for writing. No other element changes.
    pub fn index_mut(&mut self, index: Index<'id>) -> (item: &mut C::Item) where
        C: GetUncheckedMut,

        requires
            index@ < old(self)@.len(),
        ensures
            *item == old(self)@[index@ as int],
            final(self)@ == old(self)@.update(index@ as int, *final(item)),
    {
        self.container.unchecked_mut(index.integer())
    }
}

impl<'id, C: Contiguous> Container<'id, C> {
    /// The elements at the offsets of `r`, as a slice.
    pub fn slice<P: Certificate>(&self, r: Range<'id, P>) -> (items: &[C::Item])
        requires
            r@.end <= self@.len(),
        ensures
            items@ == self@.subrange(r@.start as int, r@.end as int),
    {
        vstd::slice::slice_subrange(self.container.as_slice(), r.start(), r.end())
    }

    /// The elements from `index` on, as a slice.
    pub fn slice_from<P>(&self, index: Index<'id, P>) -> (items: &[C::Item])
        requires
            index@ <= self@.len(),
        ensures
            items@ == self@.subrange(index@ as int, self@.len() as int),
    {
        let all = self.container.as_slice();
        vstd::slice::slice_subrange(all, index.integer(), all.len())
    }

    /// The elements before `index`, as a slice.
    pub fn slice_to<P>(&self, index: Index<'id, P>) -> (items: &[C::Item])
        requires
            index@ <= self@.len(),
        ensures
            items@ == self@.subrange(0, index@ as int),
    {
        vstd::slice::slice_subrange(self.container.as_slice(), 0, index.integer())
    }

    /// All the elements, as a slice.
    pub fn as_slice(&self) -> (items: &[C::Item])
        ensures
            items@ == self@,
    {
        self.container.as_slice()
    }

    /// Walks back from the element before `index` for as long as `f` holds,
    /// and returns the offsets walked over together with `index` itself:
    /// `f` holds of every element of the result but perhaps the last, and
    /// fails on the element before the result, if there is one.
    pub fn scan_from_rev<F>(&self, index: Index<'id>, f: F) -> (run: Range<'id, NonEmpty>) where
        F: Fn(&C::Item) -> bool,

        requires
            index@ < self@.len(),
            forall|k: int| 0 <= k < index@ ==> #[trigger] f.requires((&self@[k],)),
        ensures
            run@.start <= index@,
            run@.end == index@ + 1,
            forall|k: int| run@.start <= k < index@ ==> #[trigger] f.ensures((&self@[k],), true),
            run@.start > 0 ==> f.ensures((&self@[run@.start - 1],), false),
    {
        let items = self.container.as_slice();
        let stop: usize = index.integer();
        let mut start: usize = stop;
        let len: usize = items.len();
        while start > 0
            invariant_except_break
                start <= stop < len,
                len == items@.len(),
                items@ == self@,
                forall|k: int| 0 <= k < stop ==> #[trigger] f.requires((&self@[k],)),
                forall|k: int| start <= k < stop ==> #[trigger] f.ensures((&self@[k],), true),
            ensures
                start <= stop < len,
                forall|k: int| start <= k < stop ==> #[trigger] f.ensures((&self@[k],), true),
                start > 0 ==> f.ensures((&self@[start - 1],), false),
            decreases start,
        {
            let holds = f(&items[start - 1]);
            if !holds {
                break ;
            }
            start = start - 1;
        }
        Range::from_ne(start, stop + 1)
    }
}

impl<'id, C: ContiguousMut> Container<'id, C> {
    /// All the elements, as a slice through which they can be changed.
    pub fn as_mut_slice(&mut self) -> (items: &mut [C::Item])
        ensures
            items@ == old(self)@,
            final(self)@ == final(items)@,
    {
        self.container.as_mut_slice()
    }

    /// The elements at the offsets of `r`, as a slice through which they can
    /// be changed. No element outside `r` changes.
    pub fn slice_mut<P: Certificate>(&mut self, r: Range<'id, P>) -> (items: &mut [C::Item])
        requires
            r@.end <= old(self)@.len(),
        ensures
            items@ == old(self)@.subrange(r@.start as int, r@.end as int),
            final(self)@ == old(self)@.subrange(0, r@.start as int) + final(items)@ + old(
                self,
            )@.subrange(r@.end as int, old(self)@.len() as int),
    {
        let all = self.container.as_mut_slice();
        let (upto, _) = all.split_at_mut(r.end());
        let (_, items) = upto.split_at_mut(r.start());
        proof {
            let whole = old(self)@;
            assert(whole.subrange(0, r@.end as int).subrange(r@.start as int, r@.end as int)
                =~= whole.subrange(r@.start as int, r@.end as int));
            assert(whole.subrange(0, r@.end as int).subrange(0, r@.start as int)
                =~= whole.subrange(0, r@.start as int));
        }
        items
    }

    /// The elements from `index` on, as a slice through which they can be
    /// changed. No element before `index` changes.
    pub fn slice_from_mut<P>(&mut self, index: Index<'id, P>) -> (items: &mut [C::Item])
        requires
            index@ <= old(self)@.len(),
        ensures
            items@ == old(self)@.subrange(index@ as int, old(self)@.len() as int),
            final(self)@ == old(self)@.subrange(0, index@ as int) + final(items)@,
    {
        let all = self.container.as_mut_slice();
        let (_, items) = all.split_at_mut(index.integer());
        items
    }

    /// The elements before `index`, as a slice through which they can be
    /// changed. No element from `index` on changes.
    pub fn slice_to_mut<P>(&mut self, index: Index<'id, P>) -> (items: &mut [C::Item])
        requires
            index@ <= old(self)@.len(),
        ensures
            items@ == old(self)@.subrange(0, index@ as int),
            final(self)@ == final(items)@ + old(self)@.subrange(
                index@ as int,
                old(self)@.len() as int,
            ),
    {
        let all = self.container.as_mut_slice();
        let (items, _) = all.split_at_mut(index.integer());
        items
    }

    /// Exchanges the elements at `a` and `b`, which may be one and the same.
    /// The elements are moved, never duplicated.
    pub fn swap(&mut self, a: Index<'id>, b: Index<'id>)
        requires
            a@ < old(self)@.len(),
            b@ < old(self)@.len(),
        ensures
            final(self)@ == exchanged(old(self)@, a@ as int, b@ as int),
    {
        let i: usize = a.integer();
        let j: usize = b.integer();
        if i != j {
            let (lo, hi) = if i < j {
                (i, j)
            } else {
                (j, i)
            };
            let items = self.container.as_mut_slice();
            let (left, right) = items.split_at_mut(hi);
            core::mem::swap(&mut left[lo], &mut right[0]);
        }
        assert(self@ =~= exchanged(old(self)@, a@ as int, b@ as int));
    }

    /// Takes out the last element of `r`, moves every other element of `r`
    /// one place up, and puts the element taken out at the start of `r`.
    pub fn rotate1_up(&mut self, r: Range<'id, NonEmpty>)
        requires
            r@.end <= old(self)@.len(),
        ensures
            final(self)@ == rotated_up(old(self)@, r@.start as int, r@.end as int),
    {
        let first: usize = r.first().integer();
        let mut at: usize = r.last().integer();
        while at > first
            invariant
                first <= at < r@.end <= self@.len(),
                first == r@.start,
                self@.len() == old(self)@.len(),
                self@[at as int] == old(self)@[r@.end - 1],
                forall|k: int| at < k < r@.end ==> self@[k] == old(self)@[k - 1],
                forall|k: int|
                    0 <= k < self@.len() && !(at <= k < r@.end) ==> self@[k] == old(self)@[k],
            decreases at,
        {
            self.swap(Index::new(at), Index::new(at - 1));
            at = at - 1;
        }
        assert(self@ =~= rotated_up(old(self)@, r@.start as int, r@.end as int));
    }
}

/// Enters a session over `container`: `f` is handed the container under a
/// brand that it cannot choose, and what it returns is returned.
pub fn scope<C, F, Out>(container: C, f: F) -> (out: Out) where
    F: for <'id>FnOnce(Container<'id, C>) -> Out,
    C: ContainerTrait,

    requires
        forall|scoped: Container<'_, C>|
            scoped@ == container.elements() ==> #[trigger] f.requires((scoped,)),
    ensures
        exists|scoped: Container<'_, C>|
            scoped@ == container.elements() && #[trigger] f.ensures((scoped,), out),
{
    let scoped = Container { _id: Id::new(), container };
    let ghost entered = scoped;
    let out = f(scoped);
    assert(f.ensures((entered,), out));
    out
}

} // verus!
