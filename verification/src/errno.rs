//! The error number a denial reports.
//!
//! A denied call must look exactly like the operating system refusing it:
//! the caller finds the standard permission-denied error number in its
//! thread's error cell. The shim performs the per-thread write; the library
//! supplies the value to write.

use vstd::prelude::*;

verus! {

/// The permission-denied error number, `EACCES`.
pub const PERMISSION_DENIED: i32 = 13;

/// Relies on `libc::EACCES`: the permission-denied error number, defined
/// as 13 for this library's Linux targets.
#[verifier::external_body]
fn eacces_value() -> (r: i32)
    ensures
        r == PERMISSION_DENIED,
{
    libc::EACCES
}

/// The error number a denial writes into the calling thread's error cell:
/// `EACCES`, permission denied.
pub fn deny_errno() -> (r: i32)
    ensures
        r == PERMISSION_DENIED,
{
    eacces_value()
}

} // verus!
