//! Trusted bindings for the small-vector type of the `tinyvec` crate.
//!
//! The widget tree keeps a few short, mostly-inline lists in `TinyVec`s:
//! the trigger keys of an element, and the per-column and per-row extent
//! lists of the grid container. `TinyVec` stores its elements inline in an array
//! until they outgrow it, then moves them to the heap; in either state it
//! behaves as a growable vector. Each instantiation used here is held in a
//! small wrapper struct whose contents are named by an uninterpreted
//! sequence; the methods the library calls are wrapped with contracts over
//! that sequence, justified by the `TinyVec` source.

use vstd::prelude::*;

use tinyvec::TinyVec;

verus! {

/// A list of key codes, backed by a `TinyVec` that holds up to two entries
/// inline. Relies on the `tinyvec` crate for its storage.
#[verifier::external_body]
pub struct KeyList {
    inner: TinyVec<[u32; 2]>,
}

/// The elements of a key-code list, in order.
pub uninterp spec fn keys_view(v: KeyList) -> Seq<u32>;

impl KeyList {
    /// Relies on `TinyVec::new`: returns an empty list.
    #[verifier::external_body]
    pub fn new() -> (v: KeyList)
        ensures
            keys_view(v) == Seq::<u32>::empty(),
    {
        KeyList { inner: TinyVec::new() }
    }

    /// Relies on `TinyVec::push`: appends one element at the end.
    #[verifier::external_body]
    pub fn push(&mut self, x: u32)
        ensures
            keys_view(*final(self)) == keys_view(*old(self)).push(x),
    {
        self.inner.push(x)
    }

    /// Relies on `TinyVec::len`: the number of elements.
    #[verifier::external_body]
    pub fn len(&self) -> (n: usize)
        ensures
            n == keys_view(*self).len(),
    {
        self.inner.len()
    }

    /// Relies on `TinyVec`'s indexing (through its deref to a slice): the
    /// element at position `i`.
    #[verifier::external_body]
    pub fn get(&self, i: usize) -> (x: u32)
        requires
            i < keys_view(*self).len(),
        ensures
            x == keys_view(*self)[i as int],
    {
        self.inner[i]
    }
}

/// A list of lengths, backed by a `TinyVec` that holds up to thirty-two
/// entries inline. Relies on the `tinyvec` crate for its storage.
#[verifier::external_body]
pub struct LenList {
    inner: TinyVec<[u64; 32]>,
}

/// The elements of a length list, in order.
pub uninterp spec fn lens_view(v: LenList) -> Seq<u64>;

impl LenList {
    /// Relies on `TinyVec::new`: returns an empty list.
    #[verifier::external_body]
    pub fn new() -> (v: LenList)
        ensures
            lens_view(v) == Seq::<u64>::empty(),
    {
        LenList { inner: TinyVec::new() }
    }

    /// Relies on `TinyVec::push`: appends one element at the end.
    #[verifier::external_body]
    pub fn push(&mut self, x: u64)
        ensures
            lens_view(*final(self)) == lens_view(*old(self)).push(x),
    {
        self.inner.push(x)
    }

    /// Relies on `TinyVec::len`: the number of elements.
    #[verifier::external_body]
    pub fn len(&self) -> (n: usize)
        ensures
            n == lens_view(*self).len(),
    {
        self.inner.len()
    }

    /// Relies on `TinyVec`'s indexing (through its deref to a slice): the
    /// element at position `i`.
    #[verifier::external_body]
    pub fn get(&self, i: usize) -> (x: u64)
        requires
            i < lens_view(*self).len(),
        ensures
            x == lens_view(*self)[i as int],
    {
        self.inner[i]
    }
}

} // verus!
