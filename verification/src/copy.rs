use vstd::prelude::*;
use crate::container::{scope, Container};
use crate::storage::{GetUnchecked, GetUncheckedMut};

verus! {

/// `dst` with its first elements overwritten by those of `src`, as many as
/// both hold: all of them where the two are of one length.
pub open spec fn overwritten<T>(src: Seq<T>, dst: Seq<T>) -> Seq<T> {
    Seq::new(
        dst.len(),
        |k: int|
            if k < src.len() {
                src[k]
            } else {
                dst[k]
            },
    )
}

/// Copies the elements of `src` to the same offsets of `dst`, up to the
/// length of the shorter of the two. The indices into one container cannot
/// be used on the other: their sessions differ.
pub fn copy_scoped<'s, 'd, S, D>(src: &Container<'s, S>, dst: &mut Container<'d, D>) where
    S: GetUnchecked,
    D: GetUncheckedMut<Item = S::Item>,
    S::Item: Copy,

    ensures
        final(dst)@ == overwritten(src@, old(dst)@),
{
    let mut pairs = src.zipped(&*dst);
    let ghost shared = pairs@.end;
    loop
        invariant_except_break
            pairs@.start <= pairs@.end,
            pairs@.end == shared,
            shared <= src@.len(),
            shared <= dst@.len(),
            shared == src@.len() || shared == dst@.len(),
            dst@.len() == old(dst)@.len(),
            forall|k: int| 0 <= k < pairs@.start ==> dst@[k] == src@[k],
            forall|k: int| pairs@.start <= k < dst@.len() ==> dst@[k] == old(dst)@[k],
        ensures
            dst@ =~= overwritten(src@, old(dst)@),
        decreases pairs@.len(),
    {
        match pairs.next() {
            Some((src_idx, dst_idx)) => {
                *dst.index_mut(dst_idx) = *src.index(src_idx);
            },
            None => {
                break ;
            },
        }
    }
}

/// Copies the elements of `src` over those of `dst`. The two are meant to be
/// of one length; where they are not, the elements up to the length of the
/// shorter are copied and the rest of `dst` stays as it is.
pub fn copy<T: Copy>(src: &[T], dst: &mut Vec<T>)
    ensures
        final(dst)@ == overwritten(src@, old(dst)@),
        src@.len() == old(dst)@.len() ==> final(dst)@ == src@,
{
    let mut storage: Vec<T> = Vec::new();
    core::mem::swap(dst, &mut storage);
    let ghost entry = storage@;
    let filled = scope(
        src,
        |source: Container<'_, &[T]>| -> (out: Vec<T>)
            requires
                storage@ == entry
            ensures
                out@ == overwritten(source@, entry)
            {
                scope(
                    storage,
                    |target: Container<'_, Vec<T>>| -> (out: Vec<T>)
                        ensures
                            out@ == overwritten(source@, target@)
                        {
                            let mut target = target;
                            copy_scoped(&source, &mut target);
                            target.into_inner()
                        },
                )
            },
    );
    assert(src@.len() == entry.len() ==> overwritten(src@, entry) =~= src@);
    *dst = filled;
}

} // verus!
