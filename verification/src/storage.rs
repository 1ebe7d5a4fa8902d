use vstd::prelude::*;

verus! {

/// The most basic container: a fixed sequence of elements of type `Item`,
/// into which indices and ranges can point.
pub trait ContainerTrait {
    type Item;

    /// The elements that the container holds, in order.
    spec fn elements(&self) -> Seq<Self::Item>;

    /// The number of elements.
    fn base_len(&self) -> (n: usize)
        ensures
            n == self.elements().len(),
    ;
}

/// A container whose elements lie next to each other, so that any run of them
/// can be handed out as a slice.
pub trait Contiguous: ContainerTrait {
    /// All the elements as one slice.
    fn as_slice(&self) -> (slice: &[Self::Item])
        ensures
            slice@ == self.elements(),
    ;
}

/// A contiguous container whose elements can be changed through a slice.
pub trait ContiguousMut: Contiguous {
    /// All the elements as one slice through which they can be changed. The
    /// container then holds what the slice is left with.
    fn as_mut_slice(&mut self) -> (slice: &mut [Self::Item])
        ensures
            slice@ == (*old(self)).elements(),
            (*final(self)).elements() == final(slice)@,
    ;
}

/// A container that hands out the element at an offset on the caller's proof
/// that the offset is in bounds.
pub trait GetUnchecked: ContainerTrait {
    fn unchecked(&self, index: usize) -> (item: &Self::Item)
        requires
            index < self.elements().len(),
        ensures
            *item == self.elements()[index as int],
    ;
}

/// A container that hands out the element at an offset for writing, on the
/// caller's proof that the offset is in bounds. No other element changes.
pub trait GetUncheckedMut: GetUnchecked {
    fn unchecked_mut(&mut self, index: usize) -> (item: &mut Self::Item)
        requires
            index < (*old(self)).elements().len(),
        ensures
            *item == (*old(self)).elements()[index as int],
            (*final(self)).elements() == (*old(self)).elements().update(
                index as int,
                *final(item),
            ),
    ;
}

impl<'a, C: ?Sized + ContainerTrait> ContainerTrait for &'a C {
    type Item = C::Item;

    open spec fn elements(&self) -> Seq<C::Item> {
        (**self).elements()
    }

    fn base_len(&self) -> (n: usize) {
        (**self).base_len()
    }
}

impl<'a, C: ?Sized + ContainerTrait> ContainerTrait for &'a mut C {
    type Item = C::Item;

    open spec fn elements(&self) -> Seq<C::Item> {
        (**self).elements()
    }

    fn base_len(&self) -> (n: usize) {
        (**self).base_len()
    }
}

impl<'a, C: ?Sized + Contiguous> Contiguous for &'a C {
    fn as_slice(&self) -> (slice: &[C::Item]) {
        (**self).as_slice()
    }
}

impl<'a, C: ?Sized + Contiguous> Contiguous for &'a mut C {
    fn as_slice(&self) -> (slice: &[C::Item]) {
        (**self).as_slice()
    }
}

impl<'a, C: ?Sized + ContiguousMut> ContiguousMut for &'a mut C {
    fn as_mut_slice(&mut self) -> (slice: &mut [C::Item]) {
        (**self).as_mut_slice()
    }
}

impl<'a, C: ?Sized + GetUnchecked> GetUnchecked for &'a C {
    fn unchecked(&self, index: usize) -> (item: &C::Item) {
        (**self).unchecked(index)
    }
}

impl<'a, C: ?Sized + GetUnchecked> GetUnchecked for &'a mut C {
    fn unchecked(&self, index: usize) -> (item: &C::Item) {
        (**self).unchecked(index)
    }
}

impl<'a, C: ?Sized + GetUncheckedMut> GetUncheckedMut for &'a mut C {
    fn unchecked_mut(&mut self, index: usize) -> (item: &mut C::Item) {
        (**self).unchecked_mut(index)
    }
}

impl<T> ContainerTrait for [T] {
    type Item = T;

    open spec fn elements(&self) -> Seq<T> {
        self@
    }

    fn base_len(&self) -> (n: usize) {
        self.len()
    }
}

impl<T> Contiguous for [T] {
    fn as_slice(&self) -> (slice: &[T]) {
        self
    }
}

impl<T> ContiguousMut for [T] {
    fn as_mut_slice(&mut self) -> (slice: &mut [T]) {
        self
    }
}

impl<T> GetUnchecked for [T] {
    fn unchecked(&self, index: usize) -> (item: &T) {
        &self[index]
    }
}

impl<T> GetUncheckedMut for [T] {
    fn unchecked_mut(&mut self, index: usize) -> (item: &mut T) {
        &mut self[index]
    }
}

impl<T> ContainerTrait for Vec<T> {
    type Item = T;

    open spec fn elements(&self) -> Seq<T> {
        self@
    }

    fn base_len(&self) -> (n: usize) {
        self.len()
    }
}

impl<T> Contiguous for Vec<T> {
    fn as_slice(&self) -> (slice: &[T]) {
        Vec::as_slice(self)
    }
}

impl<T> ContiguousMut for Vec<T> {
    fn as_mut_slice(&mut self) -> (slice: &mut [T]) {
        Vec::as_mut_slice(self)
    }
}

impl<T> GetUnchecked for Vec<T> {
    fn unchecked(&self, index: usize) -> (item: &T) {
        &self[index]
    }
}

impl<T> GetUncheckedMut for Vec<T> {
    fn unchecked_mut(&mut self, index: usize) -> (item: &mut T) {
        &mut self[index]
    }
}

} // verus!
