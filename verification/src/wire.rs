//! Little-endian byte-string helpers shared by the codec modules.

use vstd::bytes::{
    spec_u32_from_le_bytes, spec_u32_to_le_bytes, spec_u64_from_le_bytes, spec_u64_to_le_bytes,
    u32_from_le_bytes, u32_to_le_bytes, u64_from_le_bytes, u64_to_le_bytes,
};
use vstd::prelude::*;
use vstd::slice::slice_subrange;

verus! {

/// The little-endian u32 stored at byte offset `off` of `s`.
pub open spec fn spec_field_u32(s: Seq<u8>, off: int) -> u32
    recommends
        0 <= off,
        off + 4 <= s.len(),
{
    spec_u32_from_le_bytes(s.subrange(off, off + 4))
}

/// The little-endian u64 stored at byte offset `off` of `s`.
pub open spec fn spec_field_u64(s: Seq<u8>, off: int) -> u64
    recommends
        0 <= off,
        off + 8 <= s.len(),
{
    spec_u64_from_le_bytes(s.subrange(off, off + 8))
}

/// Reads the little-endian u32 at byte offset `off` of `bytes`.
pub fn read_u32_le(bytes: &[u8], off: usize) -> (r: u32)
    requires
        off + 4 <= bytes@.len(),
    ensures
        r == spec_field_u32(bytes@, off as int),
{
    proof {
        vstd::slice::axiom_spec_len(bytes);
    }
    u32_from_le_bytes(slice_subrange(bytes, off, off + 4))
}

/// Reads the little-endian u64 at byte offset `off` of `bytes`.
pub fn read_u64_le(bytes: &[u8], off: usize) -> (r: u64)
    requires
        off + 8 <= bytes@.len(),
    ensures
        r == spec_field_u64(bytes@, off as int),
{
    proof {
        vstd::slice::axiom_spec_len(bytes);
    }
    u64_from_le_bytes(slice_subrange(bytes, off, off + 8))
}

/// Appends the four little-endian bytes of `x` to `v`.
pub fn push_u32_le(v: &mut Vec<u8>, x: u32)
    ensures
        final(v)@ == old(v)@ + spec_u32_to_le_bytes(x),
{
    let mut b = u32_to_le_bytes(x);
    v.append(&mut b);
}

/// Appends the eight little-endian bytes of `x` to `v`.
pub fn push_u64_le(v: &mut Vec<u8>, x: u64)
    ensures
        final(v)@ == old(v)@ + spec_u64_to_le_bytes(x),
{
    let mut b = u64_to_le_bytes(x);
    v.append(&mut b);
}

} // verus!
