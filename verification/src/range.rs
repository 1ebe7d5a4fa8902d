use vstd::prelude::*;
use vstd::std_specs::cmp::PartialEqSpecImpl;
use crate::brand::Id;
use crate::certificate::{Certificate, NonEmpty, ProofAdd, Provable, Unknown};
use crate::index::Index;

verus! {

/// The two bounds of a half-open interval `[start, end)` of offsets.
pub struct Span {
    pub start: nat,
    pub end: nat,
}

impl Span {
    /// The number of offsets in the interval.
    pub open spec fn len(self) -> nat {
        (self.end - self.start) as nat
    }

    /// The interval from `start` up to `at`, and the one from `at` up to `end`.
    pub open spec fn split(self, at: nat) -> (Span, Span) {
        (Span { start: self.start, end: at }, Span { start: at, end: self.end })
    }

    /// The two intervals as one, where the second begins at the end of the first.
    pub open spec fn join(self, other: Span) -> Option<Span> {
        if self.end == other.start {
            Some(Span { start: self.start, end: other.end })
        } else {
            None
        }
    }

    /// The offset at which a split `offset` places into the interval falls:
    /// the end of the interval where `offset` is more than its length.
    pub open spec fn clamp(self, offset: nat) -> nat {
        if offset > self.len() {
            self.end
        } else {
            self.start + offset
        }
    }
}

/// A range of offsets `[start, end)` into the container of the session `'id`.
/// Its bounds are in order, and with the tag `NonEmpty` it holds at least one
/// offset.
#[derive(Debug, Hash)]
pub struct Range<'id, P: Certificate = Unknown> {
    _id: Id<'id>,
    start: usize,
    end: usize,
    tag: core::marker::PhantomData<P>,
}

impl<'id, P: Certificate> View for Range<'id, P> {
    type V = Span;

    closed spec fn view(&self) -> Span {
        Span { start: self.start as nat, end: self.end as nat }
    }
}

impl<'id, P: Certificate> Range<'id, P> {
    #[verifier::type_invariant]
    spec fn well_formed(self) -> bool {
        &&& self.start <= self.end
        &&& P::certifies_nonempty() ==> self.start < self.end
    }
}

impl<'id> Range<'id> {
    /// The range `[start, end)`, of which nothing more is known.
    pub fn from(start: usize, end: usize) -> (r: Range<'id>)
        requires
            start <= end,
        ensures
            r@ == (Span { start: start as nat, end: end as nat }),
    {
        Range { _id: Id::new(), start, end, tag: core::marker::PhantomData }
    }
}

impl<'id> Range<'id, NonEmpty> {
    /// The range `[start, end)`, which holds at least `start`.
    pub fn from_ne(start: usize, end: usize) -> (r: Range<'id, NonEmpty>)
        requires
            start < end,
        ensures
            r@ == (Span { start: start as nat, end: end as nat }),
    {
        Range { _id: Id::new(), start, end, tag: core::marker::PhantomData }
    }
}

impl<'id, P: Certificate> Range<'id, P> {
    /// The range `[start, end)` under whichever tag its bounds justify.
    pub fn from_any(start: usize, end: usize) -> (r: Range<'id, P>)
        requires
            start <= end,
            P::certifies_nonempty() ==> start < end,
        ensures
            r@ == (Span { start: start as nat, end: end as nat }),
    {
        Range { _id: Id::new(), start, end, tag: core::marker::PhantomData }
    }

    /// The range tagged `NonEmpty` where it holds an offset, and nothing where
    /// it holds none.
    pub fn nonempty(&self) -> (r: Option<Range<'id, NonEmpty>>)
        ensures
            r.is_some() <==> self@.len() > 0,
            r.is_none() <==> self@.len() == 0,
            r.is_some() ==> r.unwrap()@ == self@,
    {
        proof {
            use_type_invariant(self);
        }
        if !self.is_empty() {
            Some(Range { _id: self._id, start: self.start, end: self.end, tag: core::marker::PhantomData })
        } else {
            None
        }
    }

    /// The number of offsets in the range.
    pub fn len(&self) -> (n: usize)
        ensures
            n == self@.len(),
            n == self@.end - self@.start,
            P::certifies_nonempty() ==> n > 0,
    {
        proof {
            use_type_invariant(self);
        }
        self.end - self.start
    }

    /// Whether the range holds no offset.
    pub fn is_empty(&self) -> (empty: bool)
        ensures
            empty == (self@.start >= self@.end),
            empty == (self@.len() == 0),
    {
        proof {
            use_type_invariant(self);
        }
        self.start >= self.end
    }

    /// The first offset of the range.
    pub fn start(&self) -> (start: usize)
        ensures
            start == self@.start,
            start <= self@.end,
    {
        proof {
            use_type_invariant(self);
        }
        self.start
    }

    /// The offset one past the last of the range.
    pub fn end(&self) -> (end: usize)
        ensures
            end == self@.end,
            self@.start <= end,
    {
        proof {
            use_type_invariant(self);
        }
        self.end
    }
}

impl<'id, P: Certificate> Range<'id, P> {
    /// The two halves of the range; the offset in the middle, the upper one of
    /// two, begins the second half, which keeps the tag.
    pub fn split_in_half(&self) -> (halves: (Range<'id>, Range<'id, P>))
        ensures
            (halves.0@, halves.1@) == self@.split(self@.start + self@.len() / 2),
    {
        proof {
            use_type_invariant(self);
        }
        let mid: usize = (self.end - self.start) / 2 + self.start;
        (Range::from(self.start, mid), Range::from_any(mid, self.end))
    }

    /// The range split `index` places after its start, or at its end where
    /// `index` is more than its length; the flag tells whether `index` was
    /// within the length.
    pub fn split_at(&self, index: usize) -> (parts: (Range<'id>, Range<'id>, bool))
        ensures
            (parts.0@, parts.1@) == self@.split(self@.clamp(index as nat)),
            parts.2 == (index <= self@.len()),
    {
        proof {
            use_type_invariant(self);
        }
        let mid: usize = if index > self.len() {
            self.end
        } else {
            self.start + index
        };
        (Range::from(self.start, mid), Range::from(mid, self.end), index <= self.len())
    }

    /// The index at the offset `index` where the range holds it, with the tag
    /// of the range.
    pub fn contains(&self, index: usize) -> (found: Option<Index<'id, P>>)
        ensures
            self@.start <= index < self@.end ==> found.is_some() && found.unwrap()@ == index,
            !(self@.start <= index < self@.end) ==> found.is_none(),
    {
        if index >= self.start && index < self.end {
            Some(Index::new(index))
        } else {
            None
        }
    }

    /// This range and `other` as one, where `other` begins at the end of this
    /// one; the result is tagged by the sum of the two tags.
    pub fn join<Q: Certificate>(&self, other: Range<'id, Q>) -> (joined: Option<
        Range<'id, <(P, Q) as ProofAdd>::Sum>,
    >) where (P, Q): ProofAdd<Left = P, Right = Q>
        ensures
            match self@.join(other@) {
                Some(span) => joined.is_some() && joined.unwrap()@ == span,
                None => joined.is_none(),
            },
    {
        proof {
            use_type_invariant(self);
            use_type_invariant(other);
            <(P, Q) as ProofAdd>::sum_certifies();
        }
        if self.end == other.start {
            Some(Range::from_any(self.start, other.end))
        } else {
            None
        }
    }

    /// The range tagged `NonEmpty`, on the caller's proof that it holds an
    /// offset.
    pub fn nonempty_unchecked(&self) -> (r: Range<'id, NonEmpty>)
        requires
            self@.start < self@.end,
        ensures
            r@ == self@,
    {
        Range::from_ne(self.start, self.end)
    }

    /// The index at the start of the range.
    pub fn first(&self) -> (i: Index<'id, P>)
        ensures
            i@ == self@.start,
            i@ <= self@.end,
            P::certifies_nonempty() ==> i@ < self@.end,
    {
        proof {
            use_type_invariant(self);
        }
        Index::new(self.start)
    }

    /// The index in the middle of the range, the upper one of two.
    pub fn upper_middle(&self) -> (i: Index<'id, P>)
        ensures
            i@ == self@.start + self@.len() / 2,
            self@.start <= i@ <= self@.end,
            P::certifies_nonempty() ==> i@ < self@.end,
    {
        proof {
            use_type_invariant(self);
        }
        let mid: usize = self.len() / 2 + self.start;
        Index::new(mid)
    }

    /// The range split at `index`: the offsets before it, and those from it
    /// on, which keep the tag.
    pub fn split_index(&self, index: Index<'id>) -> (parts: (Range<'id>, Range<'id, P>))
        requires
            self@.start <= index@ <= self@.end,
            P::certifies_nonempty() ==> index@ < self@.end,
        ensures
            (parts.0@, parts.1@) == self@.split(index@),
    {
        (Range::from(self.start, index.integer()), Range::from_any(index.integer(), self.end))
    }
}

impl<'id> Range<'id, NonEmpty> {
    /// The range split at `index` into two parts that are both tagged
    /// `NonEmpty`, on the caller's proof that `index` is neither the first
    /// offset nor the end.
    pub fn unsafe_split_index(&self, index: Index<'id>) -> (parts: (
        Range<'id, NonEmpty>,
        Range<'id, NonEmpty>,
    ))
        requires
            self@.start < index@ < self@.end,
        ensures
            (parts.0@, parts.1@) == self@.split(index@),
    {
        (Range::from_ne(self.start, index.integer()), Range::from_ne(index.integer(), self.end))
    }

    /// The index of the last offset of the range.
    pub fn last(&self) -> (i: Index<'id>)
        ensures
            i@ == self@.end - 1,
            self@.start <= i@,
    {
        proof {
            use_type_invariant(self);
        }
        Index::new(self.end - 1)
    }

    /// The range without its first offset.
    pub fn tail(self) -> (r: Range<'id>)
        ensures
            r@ == (Span { start: self@.start + 1, end: self@.end }),
    {
        proof {
            use_type_invariant(self);
        }
        Range::from(self.start + 1, self.end)
    }

    /// The range without its last offset.
    pub fn head(self) -> (r: Range<'id>)
        ensures
            r@ == (Span { start: self@.start, end: (self@.end - 1) as nat }),
    {
        proof {
            use_type_invariant(self);
        }
        Range::from(self.start, self.end - 1)
    }

    /// Drops the last offset where another one is left, and says whether it
    /// did so: the range of a single offset stays as it is.
    pub fn advance_back(&mut self) -> (advanced: bool)
        ensures
            advanced == (old(self)@.len() > 1),
            advanced ==> final(self)@ == (Span {
                start: old(self)@.start,
                end: (old(self)@.end - 1) as nat,
            }),
            !advanced ==> final(self)@ == old(self)@,
    {
        proof {
            use_type_invariant(&*self);
        }
        if self.start < self.end - 1 {
            self.end = self.end - 1;
            true
        } else {
            false
        }
    }

    /// Drops the first offset where another one is left, and says whether it
    /// did so: the range of a single offset stays as it is.
    pub fn advance(&mut self) -> (advanced: bool)
        ensures
            advanced == (old(self)@.len() > 1),
            advanced ==> final(self)@ == (Span { start: old(self)@.start + 1, end: old(self)@.end }),
            !advanced ==> final(self)@ == old(self)@,
    {
        proof {
            use_type_invariant(&*self);
        }
        if self.start + 1 < self.end {
            self.start = self.start + 1;
            true
        } else {
            false
        }
    }
}

/// A range split at any offset from its start to its end, and joined again,
/// is the range that was split.
pub proof fn lemma_split_then_join<'id, P: Certificate>(r: Range<'id, P>, index: Index<'id>)
    requires
        r@.start <= index@ <= r@.end,
    ensures
        r@.split(index@).0.join(r@.split(index@).1) == Some(r@),
        r@.split(index@).0.len() + r@.split(index@).1.len() == r@.len(),
{
}

/// Two ranges that join make a range as long as the two together, which
/// begins where the first begins and ends where the second ends.
pub proof fn lemma_join_adds_lengths(a: Span, b: Span)
    requires
        a.start <= a.end,
        b.start <= b.end,
        a.end == b.start,
    ensures
        a.join(b) == Some(Span { start: a.start, end: b.end }),
        a.join(b).unwrap().len() == a.len() + b.len(),
        a.join(b).unwrap().split(a.end) == (a, b),
{
}

impl<'id, P: Certificate> Provable for Range<'id, P> {
    type Proof = P;

    type WithoutProof = Range<'id, Unknown>;

    fn no_proof(self) -> (bare: Range<'id, Unknown>) {
        proof {
            use_type_invariant(self);
        }
        Range { _id: self._id, start: self.start, end: self.end, tag: core::marker::PhantomData }
    }
}

impl<'id, P: Certificate> Clone for Range<'id, P> {
    fn clone(&self) -> (r: Self)
        ensures
            r@ == self@,
    {
        proof {
            use_type_invariant(self);
        }
        Range { _id: self._id, start: self.start, end: self.end, tag: core::marker::PhantomData }
    }
}

impl<'id, P: Certificate> Copy for Range<'id, P> {

}

/// Ranges of one session are equal when their bounds are, whatever their tags.
impl<'id, P: Certificate, Q: Certificate> PartialEq<Range<'id, Q>> for Range<'id, P> {
    fn eq(&self, other: &Range<'id, Q>) -> (equal: bool) {
        self.start == other.start && self.end == other.end
    }
}

impl<'id, P: Certificate, Q: Certificate> PartialEqSpecImpl<Range<'id, Q>> for Range<'id, P> {
    open spec fn obeys_eq_spec() -> bool {
        true
    }

    open spec fn eq_spec(&self, other: &Range<'id, Q>) -> bool {
        self@ == other@
    }
}

impl<'id, P: Certificate> Eq for Range<'id, P> {

}

impl<'id, P: Certificate> Range<'id, P> {
    /// The indices of the range, to be taken from either end. The range itself
    /// stays as it is and can be walked again.
    pub fn into_iter(self) -> (iter: RangeIter<'id>)
        ensures
            iter@ == self@,
    {
        proof {
            use_type_invariant(self);
        }
        RangeIter { _id: self._id, start: self.start, end: self.end }
    }
}

/// The indices of a range that are still to come, between `start` and `end`.
pub struct RangeIter<'id> {
    _id: Id<'id>,
    start: usize,
    end: usize,
}

impl<'id> View for RangeIter<'id> {
    type V = Span;

    closed spec fn view(&self) -> Span {
        Span { start: self.start as nat, end: self.end as nat }
    }
}

impl<'id> RangeIter<'id> {
    #[verifier::type_invariant]
    spec fn well_formed(self) -> bool {
        self.start <= self.end
    }

    /// The first index that is left, which is then dropped; nothing once none
    /// is left.
    pub fn next(&mut self) -> (item: Option<Index<'id>>)
        ensures
            old(self)@.len() > 0 ==> item.is_some() && item.unwrap()@ == old(self)@.start
                && final(self)@ == (Span { start: old(self)@.start + 1, end: old(self)@.end }),
            old(self)@.len() == 0 ==> item.is_none() && final(self)@ == old(self)@,
    {
        proof {
            use_type_invariant(&*self);
        }
        if self.start < self.end {
            let idx: usize = self.start;
            self.start = self.start + 1;
            Some(Index::new(idx))
        } else {
            None
        }
    }

    /// The last index that is left, which is then dropped; nothing once none
    /// is left.
    pub fn next_back(&mut self) -> (item: Option<Index<'id>>)
        ensures
            old(self)@.len() > 0 ==> item.is_some() && item.unwrap()@ == old(self)@.end - 1
                && final(self)@ == (Span {
                start: old(self)@.start,
                end: (old(self)@.end - 1) as nat,
            }),
            old(self)@.len() == 0 ==> item.is_none() && final(self)@ == old(self)@,
    {
        proof {
            use_type_invariant(&*self);
        }
        if self.start < self.end {
            self.end = self.end - 1;
            Some(Index::new(self.end))
        } else {
            None
        }
    }

    /// The number of indices that are left.
    pub fn len(&self) -> (n: usize)
        ensures
            n == self@.len(),
            n == self@.end - self@.start,
    {
        proof {
            use_type_invariant(self);
        }
        self.end - self.start
    }
}

} // verus!
