use vstd::prelude::*;

verus! {

/// The brand of one indexing session. It holds no data: the lifetime `'id` is
/// what tells the indices and ranges of one session from those of another.
#[derive(Clone, Copy, Debug, Hash, PartialEq, Eq, PartialOrd, Ord)]
pub struct Id<'id> {
    id: core::marker::PhantomData<&'id mut &'id ()>,
}

impl<'id> Id<'id> {
    /// A brand for whichever session the context asks for. Only the library
    /// mints brands.
    pub(crate) fn new() -> (id: Id<'id>) {
        Id { id: core::marker::PhantomData }
    }
}

} // verus!
