use vstd::prelude::*;
use crate::brand::Id;
use crate::index::Index;
use crate::range::{Range, Span};

verus! {

/// The offsets that two containers of different sessions share, handed out
/// as pairs of indices, one for each container, at the same offset.
pub struct ZipRange<'lhs, 'rhs> {
    _lhs_id: Id<'lhs>,
    _rhs_id: Id<'rhs>,
    start: usize,
    end: usize,
}

impl<'lhs, 'rhs> View for ZipRange<'lhs, 'rhs> {
    type V = Span;

    closed spec fn view(&self) -> Span {
        Span { start: self.start as nat, end: self.end as nat }
    }
}

impl<'lhs, 'rhs> ZipRange<'lhs, 'rhs> {
    #[verifier::type_invariant]
    spec fn well_formed(self) -> bool {
        self.start <= self.end
    }

    /// The pairs at the offsets from `start` up to `end`.
    pub fn new(start: usize, end: usize) -> (zip: ZipRange<'lhs, 'rhs>)
        requires
            start <= end,
        ensures
            zip@ == (Span { start: start as nat, end: end as nat }),
    {
        ZipRange { _lhs_id: Id::new(), _rhs_id: Id::new(), start, end }
    }

    /// The offsets that are left, as a range of each of the two sessions.
    pub fn into_ranges(self) -> (ranges: (Range<'lhs>, Range<'rhs>))
        ensures
            ranges.0@ == self@,
            ranges.1@ == self@,
    {
        proof {
            use_type_invariant(&self);
        }
        (Range::from(self.start, self.end), Range::from(self.start, self.end))
    }

    /// The pair at the first offset that is left, which is then dropped;
    /// nothing once none is left.
    pub fn next(&mut self) -> (pair: Option<(Index<'lhs>, Index<'rhs>)>)
        ensures
            old(self)@.len() > 0 ==> pair.is_some() && pair.unwrap().0@ == old(self)@.start
                && pair.unwrap().1@ == old(self)@.start && final(self)@ == (Span {
                start: old(self)@.start + 1,
                end: old(self)@.end,
            }),
            old(self)@.len() == 0 ==> pair.is_none() && final(self)@ == old(self)@,
    {
        proof {
            use_type_invariant(&*self);
        }
        if self.start < self.end {
            let idx: usize = self.start;
            self.start = self.start + 1;
            Some((Index::new(idx), Index::new(idx)))
        } else {
            None
        }
    }

    /// The pair at the last offset that is left, which is then dropped;
    /// nothing once none is left.
    pub fn next_back(&mut self) -> (pair: Option<(Index<'lhs>, Index<'rhs>)>)
        ensures
            old(self)@.len() > 0 ==> pair.is_some() && pair.unwrap().0@ == old(self)@.end - 1
                && pair.unwrap().1@ == old(self)@.end - 1 && final(self)@ == (Span {
                start: old(self)@.start,
                end: (old(self)@.end - 1) as nat,
            }),
            old(self)@.len() == 0 ==> pair.is_none() && final(self)@ == old(self)@,
    {
        proof {
            use_type_invariant(&*self);
        }
        if self.start < self.end {
            self.end = self.end - 1;
            Some((Index::new(self.end), Index::new(self.end)))
        } else {
            None
        }
    }

    /// The number of pairs that are left.
    pub fn len(&self) -> (n: usize)
        ensures
            n == self@.len(),
            n == self@.end - self@.start,
    {
        proof {
            use_type_invariant(self);
        }
        self.end - self.start
    }
}

} // verus!
