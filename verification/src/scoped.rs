//! Scratch buffers of a run-time length that live for one call of a closure.
//!
//! Every function here builds a buffer, hands it to `callback` as an exclusive
//! slice, and gives back what `callback` returned. The buffer and its elements
//! are gone when the function returns, whichever way `callback` left. The
//! contracts say what `callback` is handed: the exact length of the slice and
//! what each slot holds.
use crate::layout::can_hold;
use core::mem::MaybeUninit;
use vstd::layout::{layout_of_maybe_uninit, layout_of_primitives, size_of};
use vstd::prelude::*;
use vstd::std_specs::iter::IteratorSpec;
use vstd::std_specs::maybe_uninit::MaybeUninitAdditionalSpecFns;

verus! {

/// `items` is a buffer of `size` slots, each holding a value that one call of
/// `init_with` may return.
pub open spec fn filled_by<T, I: FnMut() -> T>(init_with: I, size: usize, items: Seq<T>) -> bool {
    &&& items.len() == size
    &&& forall|i: int| 0 <= i < items.len() ==> init_with.ensures((), #[trigger] items[i])
}

/// `items` is a buffer of `size` slots, each holding a clone of `seed`.
pub open spec fn filled_with_clones<T: Clone>(seed: T, size: usize, items: Seq<T>) -> bool {
    &&& items.len() == size
    &&& forall|i: int| 0 <= i < items.len() ==> cloned(seed, #[trigger] items[i])
}

/// `items` is a buffer of `size` slots, each holding a value that
/// `T::default()` may return.
pub open spec fn filled_with_defaults<T: Default>(size: usize, items: Seq<T>) -> bool {
    &&& items.len() == size
    &&& forall|i: int| 0 <= i < items.len() ==> call_ensures(T::default, (), #[trigger] items[i])
}

/// `items` is a buffer of `size` slots, none of which holds a value yet.
pub open spec fn uninit_slots<T>(size: usize, items: Seq<MaybeUninit<T>>) -> bool {
    &&& items.len() == size
    &&& forall|i: int| 0 <= i < items.len() ==> (#[trigger] items[i]).as_option() is None
}

/// The buffer of `size` zero bytes.
pub open spec fn zeroed(size: usize) -> Seq<u8> {
    Seq::new(size as nat, |i: int| 0u8)
}

/// The first `size` items of `source`, or all of `source` where it is shorter.
pub open spec fn first_items<T>(source: Seq<T>, size: usize) -> Seq<T> {
    if size <= source.len() {
        source.take(size as int)
    } else {
        source
    }
}

/// `items` is what a buffer of at most `size` slots holds once it has been
/// filled from an iterator that has `source` left to yield: no more than
/// `size` items, and, where the iterator is `lawful`, the first items of
/// `source`.
pub open spec fn drawn<T>(lawful: bool, source: Seq<T>, size: usize, items: Seq<T>) -> bool {
    &&& items.len() <= size
    &&& lawful ==> items == first_items(source, size)
}

/// Builds a buffer of `size` values, each made by one call of `init_with`,
/// first slot first. The values must take no more bytes than one object may
/// have.
fn region_filled_by<T, I>(size: usize, mut init_with: I) -> (region: Vec<T>) where I: FnMut() -> T
    requires
        size_of::<T>() * size <= isize::MAX,
        size > 0 ==> init_with.requires(()),
    ensures
        filled_by(init_with, size, region@),
{
    let ghost init = init_with;
    let mut region: Vec<T> = Vec::with_capacity(size);
    while region.len() < size
        invariant
            region@.len() <= size,
            init_with == init,
            size > 0 ==> init.requires(()),
            forall|j: int| 0 <= j < region@.len() ==> init.ensures((), #[trigger] region@[j]),
        decreases size - region@.len(),
    {
        let value = init_with();
        region.push(value);
    }
    region
}

/// Borrows a buffer of `size` values of `T`, each made by one call of
/// `init_with`, for the duration of `callback`.
///
/// `init_with` is called `size` times, first slot first, and let go of before
/// `callback` runs; the `size` values are destroyed after `callback` has
/// returned. Bounding `size` is the caller's part: a count that no buffer can
/// hold ([`can_hold`]) is not accepted.
pub fn stackalloc_with<T, U, F, I>(size: usize, init_with: I, callback: F) -> (ret: U) where
    F: FnOnce(&mut [T]) -> U,
    I: FnMut() -> T,

    requires
        can_hold::<T>(size),
        size > 0 ==> init_with.requires(()),
        forall|buf: &mut [T]|
            filled_by(init_with, size, buf@) ==> #[trigger] callback.requires((buf,)),
    ensures
        exists|buf: &mut [T]|
            filled_by(init_with, size, buf@) && #[trigger] callback.ensures((buf,), ret),
{
    let mut region = region_filled_by(size, init_with);
    let buf = region.as_mut_slice();
    callback(buf)
}

/// Borrows a buffer of `size` clones of `init` for the duration of `callback`.
/// A count that no buffer can hold ([`can_hold`]) is not accepted.
pub fn stackalloc<T, U, F>(size: usize, init: T, callback: F) -> (ret: U) where
    F: FnOnce(&mut [T]) -> U,
    T: Clone,

    requires
        can_hold::<T>(size),
        forall|buf: &mut [T]|
            filled_with_clones(init, size, buf@) ==> #[trigger] callback.requires((buf,)),
    ensures
        exists|buf: &mut [T]|
            filled_with_clones(init, size, buf@) && #[trigger] callback.ensures((buf,), ret),
{
    let seed = Ghost(init);
    let make = move || -> (value: T)
        ensures
            cloned(seed@, value),
        { init.clone() };
    stackalloc_with(size, make, callback)
}

/// Borrows a buffer of `size` default values of `T` for the duration of
/// `callback`. A count that no buffer can hold ([`can_hold`]) is not accepted.
pub fn stackalloc_with_default<T, U, F>(size: usize, callback: F) -> (ret: U) where
    F: FnOnce(&mut [T]) -> U,
    T: Default,

    requires
        can_hold::<T>(size),
        forall|buf: &mut [T]|
            filled_with_defaults(size, buf@) ==> #[trigger] callback.requires((buf,)),
    ensures
        exists|buf: &mut [T]|
            filled_with_defaults(size, buf@) && #[trigger] callback.ensures((buf,), ret),
{
    let make = || -> (value: T)
        ensures
            call_ensures(T::default, (), value),
        { T::default() };
    stackalloc_with(size, make, callback)
}

/// Borrows a buffer of `size` slots for values of `T`, none of them filled,
/// for the duration of `callback`.
///
/// A slot that `callback` fills is not destroyed afterwards: the buffer does
/// not know which slots hold a value. A count that no buffer can hold
/// ([`can_hold`]) is not accepted.
pub fn stackalloc_uninit<T, U, F>(size: usize, callback: F) -> (ret: U) where
    F: FnOnce(&mut [MaybeUninit<T>]) -> U,

    requires
        can_hold::<T>(size),
        forall|buf: &mut [MaybeUninit<T>]|
            uninit_slots(size, buf@) ==> #[trigger] callback.requires((buf,)),
    ensures
        exists|buf: &mut [MaybeUninit<T>]|
            uninit_slots(size, buf@) && #[trigger] callback.ensures((buf,), ret),
{
    broadcast use layout_of_maybe_uninit;

    assert(size_of::<MaybeUninit<T>>() == size_of::<T>());
    let make = || -> (slot: MaybeUninit<T>)
        ensures
            slot.as_option() is None,
        { MaybeUninit::uninit() };
    let mut region = region_filled_by(size, make);
    let buf = region.as_mut_slice();
    callback(buf)
}

/// Borrows a buffer of `size` bytes, none of them written, for the duration
/// of `callback`. A `size` of zero is accepted and gives an empty buffer; one
/// above `isize::MAX`, which is more than any object may have, is not
/// accepted.
pub fn alloca<T, F>(size: usize, callback: F) -> (ret: T) where
    F: FnOnce(&mut [MaybeUninit<u8>]) -> T,

    requires
        size <= isize::MAX,
        forall|buf: &mut [MaybeUninit<u8>]|
            uninit_slots(size, buf@) ==> #[trigger] callback.requires((buf,)),
    ensures
        exists|buf: &mut [MaybeUninit<u8>]|
            uninit_slots(size, buf@) && #[trigger] callback.ensures((buf,), ret),
{
    broadcast use {layout_of_maybe_uninit, layout_of_primitives};

    assert(size_of::<MaybeUninit<u8>>() == 1);
    let make = || -> (slot: MaybeUninit<u8>)
        ensures
            slot.as_option() is None,
        { MaybeUninit::uninit() };
    let mut region = region_filled_by(size, make);
    let buf = region.as_mut_slice();
    callback(buf)
}

/// Borrows a buffer of `size` zero bytes for the duration of `callback`. A
/// `size` above `isize::MAX` is not accepted.
pub fn alloca_zeroed<T, F>(size: usize, callback: F) -> (ret: T) where
    F: FnOnce(&mut [u8]) -> T,

    requires
        size <= isize::MAX,
        forall|buf: &mut [u8]| buf@ == zeroed(size) ==> #[trigger] callback.requires((buf,)),
    ensures
        exists|buf: &mut [u8]| buf@ == zeroed(size) && #[trigger] callback.ensures((buf,), ret),
{
    broadcast use layout_of_primitives;

    assert(size_of::<u8>() == 1);
    let make = || -> (byte: u8)
        ensures
            byte == 0,
        { 0u8 };
    let mut region = region_filled_by(size, make);
    let buf = region.as_mut_slice();
    assert(buf@ =~= zeroed(size));
    callback(buf)
}

/// Builds the buffer of [`stackalloc_with_iter`]: the items pulled from
/// `iter` until there are `size` of them or `iter` has ended.
fn region_drawn_from<I, T>(size: usize, iter: I) -> (region: Vec<T>) where I: Iterator<Item = T>
    ensures
        drawn(iter.obeys_prophetic_iter_laws(), iter.remaining(), size, region@),
{
    let mut source = iter;
    let mut region: Vec<T> = Vec::new();
    let mut exhausted = false;
    while region.len() < size && !exhausted
        invariant
            region@.len() <= size,
            source.obeys_prophetic_iter_laws() == iter.obeys_prophetic_iter_laws(),
            iter.obeys_prophetic_iter_laws() ==> iter.remaining() == region@ + source.remaining(),
            iter.obeys_prophetic_iter_laws() && exhausted ==> source.remaining().len() == 0,
        decreases size - region@.len(), if exhausted { 0int } else { 1int },
    {
        let ghost before = source.remaining();
        let ghost pulled = region@;
        match source.next() {
            Some(item) => {
                region.push(item);
                assert(iter.obeys_prophetic_iter_laws() ==> pulled + before =~= region@
                    + source.remaining());
            },
            None => {
                exhausted = true;
            },
        }
    }
    proof {
        if iter.obeys_prophetic_iter_laws() {
            let all = iter.remaining();
            if region@.len() == size {
                assert(all.take(size as int) =~= region@);
            } else {
                assert(all =~= region@);
            }
        }
    }
    region
}

/// Borrows a buffer holding the first `size` items of `iter`, or all of them
/// where `iter` ends sooner, for the duration of `callback`.
///
/// No more than `size` items are pulled from `iter`, so an iterator without
/// an end is accepted; `iter` is let go of before `callback` runs. Of an
/// iterator that does not keep to the iterator laws the contract only bounds
/// the length of the buffer.
pub fn stackalloc_with_iter<I, T, U, F>(size: usize, iter: I, callback: F) -> (ret: U) where
    F: FnOnce(&mut [T]) -> U,
    I: Iterator<Item = T>,

    requires
        forall|buf: &mut [T]|
            drawn(iter.obeys_prophetic_iter_laws(), iter.remaining(), size, buf@)
                ==> #[trigger] callback.requires((buf,)),
    ensures
        exists|buf: &mut [T]|
            drawn(iter.obeys_prophetic_iter_laws(), iter.remaining(), size, buf@)
                && #[trigger] callback.ensures((buf,), ret),
{
    let mut region = region_drawn_from(size, iter);
    let buf = region.as_mut_slice();
    callback(buf)
}

/// `Iterator::size_hint`: the bounds that `iter` gives for the number of
/// items it has left, the lower one first. They are the iterator's own word:
/// nothing is claimed of them.
#[verifier::external_body]
fn size_bounds<I: Iterator>(iter: &I) -> (bounds: (usize, Option<usize>)) {
    iter.size_hint()
}

/// Borrows a buffer holding the items of `iter`, as many as `iter` says it
/// has left, for the duration of `callback`.
///
/// The count is the lower bound of the iterator's size hint, which for an
/// iterator of exact size is its length. The iterator may be wrong about it:
/// whatever the count, the buffer holds the items that `iter` yields first,
/// in order, and no more than the count; [`stackalloc_with_iter`] says which
/// for each count.
pub fn stackalloc_from_iter_exact<I, T, U, F>(iter: I, callback: F) -> (ret: U) where
    F: FnOnce(&mut [T]) -> U,
    I: Iterator<Item = T> + ExactSizeIterator,

    requires
        forall|buf: &mut [T], count: usize| #[trigger]
            drawn(iter.obeys_prophetic_iter_laws(), iter.remaining(), count, buf@)
                ==> callback.requires((buf,)),
    ensures
        exists|buf: &mut [T], count: usize| #[trigger]
            drawn(iter.obeys_prophetic_iter_laws(), iter.remaining(), count, buf@)
                && callback.ensures((buf,), ret),
{
    let bounds = size_bounds(&iter);
    let count: usize = bounds.0;
    stackalloc_with_iter(count, iter, callback)
}

} // verus!
