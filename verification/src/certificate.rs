use vstd::prelude::*;

verus! {

/// Tag of a length about which nothing is known: it may be zero.
#[derive(Debug, Hash, PartialEq, Eq, PartialOrd, Ord)]
pub struct Unknown;

/// Tag of a length known to be at least one.
#[derive(Debug, Hash, PartialEq, Eq, PartialOrd, Ord)]
pub struct NonEmpty;

/// The two tags, and what each one vouches for.
pub trait Certificate {
    /// Whether a value carrying this tag is known to denote at least one element.
    spec fn certifies_nonempty() -> bool;
}

impl Certificate for Unknown {
    open spec fn certifies_nonempty() -> bool {
        false
    }
}

impl Certificate for NonEmpty {
    open spec fn certifies_nonempty() -> bool {
        true
    }
}

/// The sum of two tags, implemented for the pair `(Left, Right)`: what is known
/// of two adjacent ranges taken together.
pub trait ProofAdd {
    type Left: Certificate;

    type Right: Certificate;

    type Sum: Certificate;

    /// The sum vouches for non-emptiness exactly when one of its operands does.
    proof fn sum_certifies()
        ensures
            Self::Sum::certifies_nonempty() == (Self::Left::certifies_nonempty()
                || Self::Right::certifies_nonempty()),
    ;
}

/// NonEmpty + Q = NonEmpty.
impl<Q: Certificate> ProofAdd for (NonEmpty, Q) {
    type Left = NonEmpty;

    type Right = Q;

    type Sum = NonEmpty;

    proof fn sum_certifies() {
    }
}

/// Unknown + Q = Q.
impl<Q: Certificate> ProofAdd for (Unknown, Q) {
    type Left = Unknown;

    type Right = Q;

    type Sum = Q;

    proof fn sum_certifies() {
    }
}

/// What carries a tag, and how to give the tag up: the index or range stays
/// what it is, and only what is known of it is forgotten.
pub trait Provable: View + Sized {
    type Proof;

    type WithoutProof: View<V = <Self as View>::V>;

    /// The same value tagged `Unknown`.
    fn no_proof(self) -> (bare: Self::WithoutProof)
        ensures
            bare@ == self@,
    ;
}

} // verus!
