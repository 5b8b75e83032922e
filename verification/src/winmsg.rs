//! Word extraction from packed message parameters, and the integer part of
//! resource-identifier construction.
//!
//! A window message packs two 16-bit words into one 32-bit value; these
//! helpers take them apart.  A resource identifier made from an integer is
//! the integer's low 16 bits widened to a pointer-sized value; the caller at
//! the foreign-function boundary turns that value into the pointer the
//! interface wants.

use vstd::prelude::*;

verus! {

/// The high-order word of a 32-bit value.
#[allow(non_snake_case)]
pub fn HIWORD(u: u32) -> (r: u16)
    ensures
        r == u >> 16u32,
{
    proof {
        assert((u & 0xFFFF0000u32) >> 16u32 == u >> 16u32) by (bit_vector);
        assert(u >> 16u32 <= 0xFFFFu32) by (bit_vector);
    }
    ((u & 0xFFFF0000) >> 16) as u16
}

/// The low-order word of a 32-bit value.
#[allow(non_snake_case)]
pub fn LOWORD(u: u32) -> (r: u16)
    ensures
        r == u & 0xFFFFu32,
{
    proof {
        assert(u & 0x0000FFFFu32 <= 0xFFFFu32) by (bit_vector);
    }
    (u & 0x0000FFFF) as u16
}

/// The integer value of the resource identifier for `i`: its low 16 bits.
#[allow(non_snake_case)]
pub fn MAKEINTRESOURCEA(i: u32) -> (r: usize)
    ensures
        r == i & 0xFFFFu32,
{
    proof {
        assert(i & 0xFFFFu32 <= 0xFFFFu32) by (bit_vector);
    }
    (i & 0xFFFF) as usize
}

/// The integer value of the wide resource identifier for `i`: its low 16
/// bits.
#[allow(non_snake_case)]
pub fn MAKEINTRESOURCEW(i: u32) -> (r: usize)
    ensures
        r == i & 0xFFFFu32,
{
    proof {
        assert(i & 0xFFFFu32 <= 0xFFFFu32) by (bit_vector);
    }
    (i & 0xFFFF) as usize
}

} // verus!
