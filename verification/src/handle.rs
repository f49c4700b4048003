//! The by-name file-handle record.
//!
//! The handle-lookup primitive fills a caller-supplied record with an opaque
//! handle: a length, a type tag, and the handle's bytes. The library models
//! that record with the bytes held directly; the shim's foreign-function
//! twin carries them behind a raw pointer instead.

use vstd::prelude::*;

verus! {

/// A by-name file-handle record: a type tag and the handle's bytes, with
/// the byte count recorded alongside.
#[derive(Clone, Debug, PartialEq, Eq)]
#[allow(non_camel_case_types)]
pub struct file_handle {
    /// The number of bytes the handle holds.
    pub handle_bytes: u8,
    /// The handle's type tag.
    pub handle_type: i32,
    /// The handle's bytes.
    pub f_handle: Vec<u8>,
}

impl file_handle {
    /// Well-formed: the recorded byte count is the number of bytes held.
    pub open spec fn wf(self) -> bool {
        self.handle_bytes as int == self.f_handle@.len()
    }

    /// Builds a well-formed record over the given bytes.
    pub fn new(handle_type: i32, bytes: Vec<u8>) -> (h: file_handle)
        requires
            bytes@.len() <= u8::MAX as int,
        ensures
            h.wf(),
            h.handle_type == handle_type,
            h.f_handle@ == bytes@,
    {
        let n = bytes.len() as u8;
        file_handle { handle_bytes: n, handle_type, f_handle: bytes }
    }

    /// The number of bytes the handle holds.
    pub fn len(&self) -> (n: usize)
        requires
            self.wf(),
        ensures
            n == self.f_handle@.len(),
    {
        self.f_handle.len()
    }
}

} // verus!
