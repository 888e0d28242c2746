//! What the library takes from outside without proof: the shared byte buffers of the `bytes`
//! crate, the error numbers of the `libc` crate, and the address of a slice.

use bytes::Bytes;
use vstd::prelude::*;

verus! {

/// `bytes::Bytes`, a cheaply cloneable, immutable run of bytes. Nothing inside it is visible.
#[verifier::external_type_specification]
#[verifier::external_body]
pub struct ExBytes(bytes::Bytes);

/// The bytes that a `Bytes` holds.
pub uninterp spec fn bytes_content(b: Bytes) -> Seq<u8>;

/// `Bytes::len`: the number of bytes held.
pub assume_specification[ Bytes::len ](b: &Bytes) -> (len: usize)
    ensures
        len == bytes_content(*b).len(),
;

/// `Bytes::is_empty`: whether no byte is held.
pub assume_specification[ Bytes::is_empty ](b: &Bytes) -> (empty: bool)
    ensures
        empty == (bytes_content(*b).len() == 0),
;

/// `Bytes::clone`: another handle to the same bytes. It aborts the process when handles by the
/// half of the address space exist, which no memory holds.
pub assume_specification[ <Bytes as Clone>::clone ](b: &Bytes) -> (copy: Bytes)
    ensures
        bytes_content(copy) == bytes_content(*b),
;

/// The number by which Linux reports a system call that a signal interrupted.
pub open spec fn interrupted_errno() -> i32 {
    4
}

/// The number by which Linux reports that the thing named does not exist.
pub open spec fn not_found_errno() -> i32 {
    2
}

/// The number by which Linux reports an input/output error.
pub open spec fn io_errno() -> i32 {
    5
}

/// The constant `libc::EINTR`, which is 4 on Linux.
#[verifier::external_body]
pub(crate) fn eintr() -> (code: i32)
    ensures
        code == interrupted_errno(),
{
    libc::EINTR
}

/// The constant `libc::ENOENT`, which is 2 on Linux.
#[verifier::external_body]
pub(crate) fn enoent() -> (code: i32)
    ensures
        code == not_found_errno(),
{
    libc::ENOENT
}

/// The constant `libc::EIO`, which is 5 on Linux.
#[verifier::external_body]
pub(crate) fn eio() -> (code: i32)
    ensures
        code == io_errno(),
{
    libc::EIO
}

/// `slice::as_mut_ptr`, as a number: where the slice lies in memory. A reference is never null,
/// so neither is this. Which address it is depends on the allocator and is left unsaid.
#[verifier::external_body]
pub(crate) fn slice_address(slice: &mut [u8]) -> (addr: usize)
    ensures
        addr != 0,
        final(slice)@ == old(slice)@,
{
    slice.as_mut_ptr() as usize
}

} // verus!
