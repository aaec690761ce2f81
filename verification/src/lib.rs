//! Scratch buffers of a run-time length that are borrowed for the duration of
//! one closure call, and a growable vector that spills from such a buffer to
//! the heap.
//!
//! * [`scoped`]: the buffers. Each function builds the buffer, runs the closure
//!   on it and returns what the closure returned; its contract says what the
//!   closure is handed.
//! * [`avec`]: [`AVec`], the vector that starts in a borrowed store.
//! * [`layout`]: the byte counts and addresses by which an aligned slice is
//!   carved out of a raw byte region.
//! * [`fill`]: writing values into a region of empty slots in place.
//! * [`examples`]: worked uses of the buffers, proved from their contracts.
//!
//! The functions of [`scoped`] keep their buffer in a `Vec`, so all of this
//! crate is safe code. A backend that extends the caller's stack frame instead
//! needs a foreign routine and raw pointers; it belongs outside this crate and
//! takes its arithmetic from [`layout`] and its initialisation from [`fill`].
pub mod avec;
pub mod examples;
pub mod fill;
pub mod layout;
pub mod scoped;

pub use avec::{AVec, AVecView};
pub use scoped::{
    alloca, alloca_zeroed, stackalloc, stackalloc_from_iter_exact, stackalloc_uninit,
    stackalloc_with, stackalloc_with_default, stackalloc_with_iter,
};
