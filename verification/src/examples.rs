//! Worked uses of the buffers and of [`AVec`]. Each contract here is proved
//! from the contracts of the functions used alone, so each shows what a caller
//! can rely on.
use crate::avec::AVec;
use crate::layout::can_hold;
use crate::scoped::{alloca, alloca_zeroed, stackalloc_with_default};
use core::mem::MaybeUninit;
use vstd::prelude::*;

verus! {

/// The length that a closure sees of a buffer of `size` bytes: always `size`.
pub fn buffer_len(size: usize) -> (len: usize)
    requires
        size <= isize::MAX,
    ensures
        len == size,
{
    let measure = |buf: &mut [MaybeUninit<u8>]| -> (len: usize)
        ensures
            len == old(buf)@.len(),
        { buf.len() };
    alloca(size, measure)
}

/// Borrows `size` bytes for a callback that gives up with `reason`, then
/// borrows `size` bytes again: the caller gets `reason` back as it was given,
/// and the second buffer is as long as if nothing had gone before.
pub fn give_up_then_retry(size: usize, reason: u64) -> (seen: (Result<usize, u64>, usize))
    requires
        size <= isize::MAX,
    ensures
        seen.0 == Err::<usize, u64>(reason),
        seen.1 == size,
{
    let give_up = |buf: &mut [MaybeUninit<u8>]| -> (outcome: Result<usize, u64>)
        ensures
            outcome == Err::<usize, u64>(reason),
        { Err(reason) };
    let first = alloca(size, give_up);
    let second = buffer_len(size);
    (first, second)
}

/// Overwrites `buf` with `pattern`, byte for byte.
fn write_pattern(buf: &mut [u8], pattern: &[u8])
    requires
        old(buf)@.len() == pattern@.len(),
    ensures
        final(buf)@ == pattern@,
{
    let mut i: usize = 0;
    while i < pattern.len()
        invariant
            i <= pattern@.len(),
            buf@.len() == pattern@.len(),
            forall|j: int| 0 <= j < i ==> buf@[j] == pattern@[j],
        decreases pattern@.len() - i,
    {
        buf[i] = pattern[i];
        i = i + 1;
    }
}

/// Copies out what `buf` holds.
fn read_back(buf: &[u8]) -> (bytes: Vec<u8>)
    requires
        buf@.len() <= isize::MAX,
    ensures
        bytes@ == buf@,
{
    let mut bytes: Vec<u8> = Vec::with_capacity(buf.len());
    let mut i: usize = 0;
    while i < buf.len()
        invariant
            i <= buf@.len(),
            bytes@ == buf@.take(i as int),
        decreases buf@.len() - i,
    {
        bytes.push(buf[i]);
        i = i + 1;
    }
    bytes
}

/// Writes `pattern` into a scratch buffer of its length and reads the buffer
/// back while it is still borrowed: what comes back is `pattern`.
pub fn echo(pattern: &[u8]) -> (back: Vec<u8>)
    requires
        pattern@.len() <= isize::MAX,
    ensures
        back@ == pattern@,
{
    let write_then_read = |buf: &mut [u8]| -> (back: Vec<u8>)
        requires
            old(buf)@.len() == pattern@.len(),
        ensures
            back@ == pattern@,
        {
            write_pattern(buf, pattern);
            read_back(buf)
        };
    alloca_zeroed(pattern.len(), write_then_read)
}

/// Pushes `count` items onto a new vector over `store` and returns after how
/// many pushes the vector first said that it was allocated, together with the
/// number of items it held at the end. Where `count` does not reach the
/// number of slots, the vector never says so, and the first number is `None`.
fn count_pushes(store: &mut [Option<usize>], count: usize) -> (seen: (Option<usize>, usize))
    ensures
        seen.0 == (if old(store)@.len() <= count {
            Some(old(store)@.len() as usize)
        } else {
            None
        }),
        seen.1 == count,
{
    let ghost capacity = store@.len();
    let mut avec = AVec::new(store);
    let mut first: Option<usize> = if avec.is_allocated() {
        Some(0)
    } else {
        None
    };
    let mut pushed: usize = 0;
    while pushed < count
        invariant
            pushed <= count,
            avec@.capacity == capacity,
            avec@.len() == pushed,
            first == (if capacity <= pushed {
                Some(capacity as usize)
            } else {
                None
            }),
        decreases count - pushed,
    {
        avec.push(pushed);
        pushed = pushed + 1;
        if first.is_none() && avec.is_allocated() {
            first = Some(pushed);
        }
    }
    (first, avec.len())
}

/// Borrows a store of `capacity` slots, pushes `capacity + extra` items onto a
/// vector over it, and returns after how many pushes the vector first said
/// that it was allocated, together with the number of items it held at the
/// end: `capacity` and `capacity + extra`, whatever the two are.
pub fn pushes_until_allocated(capacity: usize, extra: usize) -> (seen: (usize, usize))
    requires
        can_hold::<Option<usize>>(capacity),
        capacity + extra <= usize::MAX,
    ensures
        seen.0 == capacity,
        seen.1 == capacity + extra,
{
    let count = capacity + extra;
    let fill_and_count = |store: &mut [Option<usize>]| -> (seen: (usize, usize))
        requires
            old(store)@.len() == capacity,
        ensures
            seen.0 == capacity,
            seen.1 == count,
        {
            let (first, len) = count_pushes(store, count);
            match first {
                Some(at) => (at, len),
                None => (capacity, len),
            }
        };
    stackalloc_with_default(capacity, fill_and_count)
}

} // verus!
