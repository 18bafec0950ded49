//! Host integers as the integers of the C interface.

use vstd::prelude::*;

verus! {

/// A position on the stack as a C unsigned integer, where it fits.
pub fn stack_index(n: usize) -> (index: Option<u32>)
    ensures
        index is Some <==> n <= u32::MAX,
        index matches Some(i) ==> i == n,
{
    if n <= 0xffff_ffff {
        Some(n as u32)
    } else {
        None
    }
}

/// A number of arguments as a C signed integer that is not below zero,
/// where it fits.
pub fn argument_count(n: usize) -> (count: Option<i32>)
    ensures
        count is Some <==> n <= i32::MAX,
        count matches Some(c) ==> c == n,
{
    if n <= 0x7fff_ffff {
        Some(n as i32)
    } else {
        None
    }
}

/// An index into a list as the 64-bit integer of the runtime. An index
/// below zero counts from the end of the list.
pub fn list_index(n: isize) -> (index: i64)
    ensures
        index == n,
{
    n as i64
}

/// An error code as a C signed integer, where it fits.
pub fn error_code(error: isize) -> (code: Option<i32>)
    ensures
        code is Some <==> i32::MIN <= error <= i32::MAX,
        code matches Some(c) ==> c == error,
{
    if -0x8000_0000 <= error && error <= 0x7fff_ffff {
        Some(error as i32)
    } else {
        None
    }
}

} // verus!
