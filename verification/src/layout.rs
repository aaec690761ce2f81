//! Byte counts and addresses for carving an aligned slice of `T` out of a raw
//! byte region whose start address is not known in advance.
//!
//! A region of [`region_bytes`] bytes is always large enough: wherever it
//! starts, the address [`aligned_after`] its start is aligned, lies inside the
//! region, and leaves room for all the elements behind it.
use vstd::arithmetic::div_mod::{lemma_fundamental_div_mod, lemma_mod_multiples_basic};
use vstd::arithmetic::mul::lemma_mul_is_distributive_add;
use vstd::layout::{align_nonzero, align_of, size_of};
use vstd::prelude::*;

verus! {

/// Number of bytes to borrow for `count` elements of `elem_size` bytes each
/// that must be aligned to `elem_align`: the elements themselves, plus one
/// full alignment unit of slack.
pub open spec fn region_bytes(elem_size: nat, elem_align: nat, count: nat) -> nat {
    elem_size * count + elem_align
}

/// A buffer of `count` values of `T` can exist: the values take no more than
/// `isize::MAX` bytes, the most that one object may have, and the number of
/// bytes to borrow for them as a raw region fits in `usize`.
pub open spec fn can_hold<T>(count: usize) -> bool {
    &&& size_of::<T>() * count <= isize::MAX
    &&& region_bytes(size_of::<T>(), align_of::<T>(), count as nat) <= usize::MAX
}

/// The first multiple of `align` above `addr`: `addr + align - addr % align`.
/// An address that is a multiple already is moved up by a whole `align`, so
/// the result is always above `addr`.
pub open spec fn aligned_after(addr: nat, align: nat) -> nat
    recommends
        align > 0,
{
    (addr + align - addr % align) as nat
}

/// What holds of [`aligned_after`] for any positive alignment: the result is a
/// multiple of `align`, above `addr`, at most `align` above it, and no
/// multiple of `align` lies between `addr` and it.
pub proof fn lemma_aligned_after(addr: nat, align: nat)
    requires
        align > 0,
    ensures
        aligned_after(addr, align) % align == 0,
        addr < aligned_after(addr, align) <= addr + align,
        aligned_after(addr, align) == addr + align - addr % align,
        forall|other: nat|
            addr < other && #[trigger] (other % align) == 0 ==> aligned_after(addr, align) <= other,
{
    let a = addr as int;
    let d = align as int;
    lemma_fundamental_div_mod(a, d);
    // a == d * (a / d) + a % d, so a + d - a % d == d * (a / d + 1)
    lemma_mul_is_distributive_add(d, a / d, 1);
    lemma_mod_multiples_basic(a / d + 1, d);
    assert forall|other: nat| addr < other && #[trigger] (other % align) == 0 implies aligned_after(
        addr,
        align,
    ) <= other by {
        let m = other as int;
        lemma_fundamental_div_mod(m, d);
        // m == d * (m / d) is above a >= d * (a / d), so m / d is above a / d
        assert(m / d >= a / d + 1) by (nonlinear_arith)
            requires
                d > 0,
                m == d * (m / d),
                a >= d * (a / d),
                m > a,
        ;
        assert(d * (m / d) >= d * (a / d + 1)) by (nonlinear_arith)
            requires
                d > 0,
                m / d >= a / d + 1,
        ;
    }
}

/// A region of `region_bytes(elem_size, align, count)` bytes that starts at
/// `addr` holds `count` elements of `elem_size` bytes laid out from
/// `aligned_after(addr, align)`: the elements begin inside the region, on a
/// multiple of `align`, and end no later than the region does.
pub proof fn lemma_aligned_slice_fits(addr: nat, elem_size: nat, align: nat, count: nat)
    requires
        align > 0,
    ensures
        aligned_after(addr, align) % align == 0,
        addr < aligned_after(addr, align),
        aligned_after(addr, align) + elem_size * count <= addr + region_bytes(
            elem_size,
            align,
            count,
        ),
{
    lemma_aligned_after(addr, align);
}

/// Bytes to borrow for an aligned slice of `count` values of `T`, or `None`
/// when that number does not fit in `usize`.
pub fn size_bytes<T>(count: usize) -> (bytes: Option<usize>)
    ensures
        bytes == (if region_bytes(size_of::<T>(), align_of::<T>(), count as nat) <= usize::MAX {
            Some(region_bytes(size_of::<T>(), align_of::<T>(), count as nat) as usize)
        } else {
            None::<usize>
        }),
{
    let elem_size = core::mem::size_of::<T>();
    let elem_align = core::mem::align_of::<T>();
    match elem_size.checked_mul(count) {
        Some(elems) => elems.checked_add(elem_align),
        None => {
            None
        },
    }
}

/// Whether a buffer of `count` values of `T` can exist: see [`can_hold`].
pub fn fits<T>(count: usize) -> (ok: bool)
    ensures
        ok == can_hold::<T>(count),
{
    let elem_size = core::mem::size_of::<T>();
    match elem_size.checked_mul(count) {
        Some(bytes) => bytes <= isize::MAX as usize && size_bytes::<T>(count).is_some(),
        None => false,
    }
}

/// The address at which a slice of `T` starts inside a byte region that starts
/// at `addr`: `addr + align - addr % align` for the alignment of `T`.
pub fn align_buffer_to<T>(addr: usize) -> (aligned: usize)
    requires
        addr + align_of::<T>() <= usize::MAX,
    ensures
        aligned == aligned_after(addr as nat, align_of::<T>()),
        aligned as nat % align_of::<T>() == 0,
        addr < aligned <= addr + align_of::<T>(),
{
    let align = core::mem::align_of::<T>();
    proof {
        broadcast use align_nonzero;
        lemma_aligned_after(addr as nat, align_of::<T>());
    }
    addr + align - addr % align
}

} // verus!
