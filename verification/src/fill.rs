//! Filling a borrowed region of empty slots in place.
//!
//! A backend that gets its region as raw memory has it as a slice of
//! `MaybeUninit<T>` and must know which slots hold a value before it may read
//! them as `T`. The functions here do the writing; their contracts say which
//! slots hold a value afterwards, and which value.
use crate::scoped::{drawn, filled_by, zeroed};
use core::mem::MaybeUninit;
use vstd::prelude::*;
use vstd::std_specs::iter::IteratorSpec;
use vstd::std_specs::maybe_uninit::MaybeUninitAdditionalSpecFns;

verus! {

/// The values held by `slots`, which must all be filled, in slot order.
pub open spec fn values<T>(slots: Seq<MaybeUninit<T>>) -> Seq<T> {
    Seq::new(slots.len(), |i: int| slots[i].as_option()->0)
}

/// Every slot of `slots` holds a value.
pub open spec fn all_filled<T>(slots: Seq<MaybeUninit<T>>) -> bool {
    forall|i: int| 0 <= i < slots.len() ==> (#[trigger] slots[i]).as_option() is Some
}

/// Writes zero into every byte of `buf`.
pub fn zero_bytes(buf: &mut [MaybeUninit<u8>])
    ensures
        final(buf)@.len() == old(buf)@.len(),
        all_filled(final(buf)@),
        values(final(buf)@) == zeroed(old(buf)@.len() as usize),
{
    let mut i: usize = 0;
    while i < buf.len()
        invariant
            i <= buf@.len(),
            buf@.len() == old(buf)@.len(),
            forall|j: int| 0 <= j < i ==> (#[trigger] buf@[j]).as_option() == Some(0u8),
        decreases buf@.len() - i,
    {
        buf[i] = MaybeUninit::new(0u8);
        i = i + 1;
    }
}

/// Fills every slot of `buf` with a value made by `init_with`, first slot
/// first. What a slot held before is overwritten, not destroyed.
pub fn fill_with<T, I>(buf: &mut [MaybeUninit<T>], mut init_with: I) where I: FnMut() -> T
    requires
        old(buf)@.len() > 0 ==> init_with.requires(()),
    ensures
        final(buf)@.len() == old(buf)@.len(),
        all_filled(final(buf)@),
        filled_by(init_with, old(buf)@.len() as usize, values(final(buf)@)),
{
    let ghost init = init_with;
    let mut i: usize = 0;
    while i < buf.len()
        invariant
            i <= buf@.len(),
            buf@.len() == old(buf)@.len(),
            init_with == init,
            buf@.len() > 0 ==> init.requires(()),
            forall|j: int| 0 <= j < i ==> (#[trigger] buf@[j]).as_option() is Some,
            forall|j: int| 0 <= j < i ==> init.ensures((), (#[trigger] buf@[j]).as_option()->0),
        decreases buf@.len() - i,
    {
        let value = init_with();
        buf[i] = MaybeUninit::new(value);
        i = i + 1;
    }
}

/// Fills the slots of `buf` from `iter`, first slot first, until `buf` is
/// full or `iter` has ended, and returns the number of slots filled. The
/// slots behind them are left as they were.
///
/// No more items are pulled from `iter` than `buf` has slots. Of an iterator
/// that does not keep to the iterator laws the contract says which slots are
/// filled, not with what.
pub fn fill_from_iter<T, I>(buf: &mut [MaybeUninit<T>], iter: I) -> (done: usize) where
    I: Iterator<Item = T>,

    ensures
        final(buf)@.len() == old(buf)@.len(),
        done <= old(buf)@.len(),
        all_filled(final(buf)@.take(done as int)),
        forall|i: int| done <= i < old(buf)@.len() ==> final(buf)@[i] == old(buf)@[i],
        drawn(
            iter.obeys_prophetic_iter_laws(),
            iter.remaining(),
            old(buf)@.len() as usize,
            values(final(buf)@.take(done as int)),
        ),
{
    let mut source = iter;
    let mut done: usize = 0;
    let mut exhausted = false;
    while done < buf.len() && !exhausted
        invariant
            done <= buf@.len(),
            buf@.len() == old(buf)@.len(),
            forall|j: int| 0 <= j < done ==> (#[trigger] buf@[j]).as_option() is Some,
            forall|j: int| done <= j < buf@.len() ==> buf@[j] == old(buf)@[j],
            source.obeys_prophetic_iter_laws() == iter.obeys_prophetic_iter_laws(),
            iter.obeys_prophetic_iter_laws() ==> iter.remaining() == values(
                buf@.take(done as int),
            ) + source.remaining(),
            iter.obeys_prophetic_iter_laws() && exhausted ==> source.remaining().len() == 0,
        decreases buf@.len() - done, if exhausted { 0int } else { 1int },
    {
        let ghost before = source.remaining();
        let ghost filled = values(buf@.take(done as int));
        match source.next() {
            Some(item) => {
                buf[done] = MaybeUninit::new(item);
                done = done + 1;
                assert(iter.obeys_prophetic_iter_laws() ==> filled + before =~= values(
                    buf@.take(done as int),
                ) + source.remaining());
            },
            None => {
                exhausted = true;
            },
        }
    }
    proof {
        if iter.obeys_prophetic_iter_laws() {
            let all = iter.remaining();
            let got = values(buf@.take(done as int));
            if done == buf@.len() {
                assert(all.take(done as int) =~= got);
            } else {
                assert(all =~= got);
            }
        }
    }
    done
}

} // verus!
