//! An owned scatter/gather element.
//!
//! [`OwnedIoSlice`] owns a heap-allocated run of bytes for the whole
//! lifetime of an in-flight operation, so the engine can hand the OS
//! a stable element of a scatter/gather list. The unsafe layout step
//! that makes the in-memory representation bit-identical to the OS
//! element lives with the I/O code; here the slice is its bytes.

use vstd::prelude::*;

use crate::buf::{Buf, BufMut, IoBuf, IoBufMut};

verus! {

/// An owned version of an I/O slice: an exclusively owned heap
/// allocation of bytes, usable directly as a scatter/gather element.
pub struct OwnedIoSlice {
    data: Vec<u8>,
}

impl OwnedIoSlice {
    /// Create a new `OwnedIoSlice` that takes over the given bytes.
    pub fn from_boxed_slice(data: Vec<u8>) -> (s: Self)
        ensures
            s.buf_bytes() == data@,
    {
        OwnedIoSlice { data }
    }

    /// Give the underlying allocation back to the caller.
    pub fn into_vec(self) -> (v: Vec<u8>)
        ensures
            v@ == self.buf_bytes(),
    {
        self.data
    }
}

impl Buf for OwnedIoSlice {
    closed spec fn buf_bytes(&self) -> Seq<u8> {
        self.data@
    }

    fn buf_len(&self) -> (n: usize) {
        self.data.len()
    }

    fn buf_byte(&self, i: usize) -> (b: u8) {
        self.data[i]
    }
}

impl BufMut for OwnedIoSlice {
    fn put(&mut self, i: usize, b: u8) {
        *vstd::std_specs::vec::vec_index_mut(&mut self.data, i) = b;
    }
}

impl IoBuf for OwnedIoSlice {

}

impl IoBufMut for OwnedIoSlice {

}

} // verus!
