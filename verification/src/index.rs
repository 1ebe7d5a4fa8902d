use vstd::prelude::*;
use vstd::std_specs::cmp::{PartialEqSpecImpl, PartialOrdSpecImpl};
use core::cmp::Ordering;
use crate::brand::Id;
use crate::certificate::{NonEmpty, Provable, Unknown};

verus! {

/// An offset into the container of the session `'id`. With the tag `NonEmpty`
/// (the default) it is meant to be dereferenced; with `Unknown` it may lie one
/// past the last element.
#[derive(Debug, Hash, Ord)]
pub struct Index<'id, P = NonEmpty> {
    index: usize,
    id: Id<'id>,
    tag: core::marker::PhantomData<P>,
}

impl<'id, P> View for Index<'id, P> {
    type V = nat;

    closed spec fn view(&self) -> nat {
        self.index as nat
    }
}

impl<'id, P> Index<'id, P> {
    /// An index at the offset `index`. Nothing ties the offset to a container
    /// here: each access states the bound it needs.
    pub fn new(index: usize) -> (i: Index<'id, P>)
        ensures
            i@ == index,
    {
        Index { index, id: Id::new(), tag: core::marker::PhantomData }
    }

    /// The offset from the start of the container.
    pub fn integer(&self) -> (offset: usize)
        ensures
            offset == self@,
    {
        self.index
    }
}

impl<'id, P> Provable for Index<'id, P> {
    type Proof = P;

    type WithoutProof = Index<'id, Unknown>;

    fn no_proof(self) -> (bare: Index<'id, Unknown>) {
        Index { index: self.index, id: self.id, tag: core::marker::PhantomData }
    }
}

impl<'id, P> Clone for Index<'id, P> {
    fn clone(&self) -> (i: Self)
        ensures
            i@ == self@,
    {
        Index { index: self.index, id: self.id, tag: core::marker::PhantomData }
    }
}

impl<'id, P> Copy for Index<'id, P> {

}

/// Indices of one session are equal when their offsets are, whatever their tags.
impl<'id, P, Q> PartialEq<Index<'id, Q>> for Index<'id, P> {
    fn eq(&self, rhs: &Index<'id, Q>) -> (equal: bool) {
        self.index == rhs.index
    }
}

impl<'id, P, Q> PartialEqSpecImpl<Index<'id, Q>> for Index<'id, P> {
    open spec fn obeys_eq_spec() -> bool {
        true
    }

    open spec fn eq_spec(&self, rhs: &Index<'id, Q>) -> bool {
        self@ == rhs@
    }
}

impl<'id, P> Eq for Index<'id, P> {

}

/// Indices of one session are ordered by their offsets, whatever their tags.
impl<'id, P, Q> PartialOrd<Index<'id, Q>> for Index<'id, P> {
    fn partial_cmp(&self, rhs: &Index<'id, Q>) -> (order: Option<Ordering>) {
        if self.index < rhs.index {
            Some(Ordering::Less)
        } else if self.index > rhs.index {
            Some(Ordering::Greater)
        } else {
            Some(Ordering::Equal)
        }
    }
}

impl<'id, P, Q> PartialOrdSpecImpl<Index<'id, Q>> for Index<'id, P> {
    open spec fn obeys_partial_cmp_spec() -> bool {
        true
    }

    open spec fn partial_cmp_spec(&self, rhs: &Index<'id, Q>) -> Option<Ordering> {
        if self@ < rhs@ {
            Some(Ordering::Less)
        } else if self@ > rhs@ {
            Some(Ordering::Greater)
        } else {
            Some(Ordering::Equal)
        }
    }
}

} // verus!
