//! The minimal data format descriptor (DFD) block.
//!
//! The codec emits a single 28-byte basic-format descriptor describing a
//! single-plane, non-block-compressed, sRGB format with a caller-chosen
//! number of bytes per texel.  Supporting another layout means extending
//! this builder, not rearranging the container.

use crate::header::ContainerHeader;
use vstd::bytes::{lemma_auto_spec_u32_to_from_le_bytes, spec_u32_to_le_bytes};
use vstd::prelude::*;

verus! {

/// Byte length of the minimal basic-format descriptor block.
pub const DFD_LEN: usize = 28;

/// Byte offset, within the DFD block, of the bytes-per-plane entry that
/// holds the texel size.
pub const DFD_BYTES_PLANE0_OFFSET: usize = 24;

/// The 28 bytes of the minimal basic-format descriptor: Khronos vendor id,
/// basic-format descriptor type, version 2, block size 28, sRGB transfer
/// function, BT.709 color primaries, no flags, 1×1×1×1 texel blocks, and
/// `bytes_per_texel` in the first bytes-plane slot.
pub open spec fn spec_minimal_dfd(bytes_per_texel: u8) -> Seq<u8> {
    spec_u32_to_le_bytes(0)  // vendor id: Khronos
     + spec_u32_to_le_bytes(0)  // descriptor type: basic format
     + spec_u32_to_le_bytes(2)  // version
     + spec_u32_to_le_bytes(28)  // descriptor block size
     + seq![2u8]  // transfer function: sRGB
     + seq![1u8]  // color primaries: BT.709
     + seq![0u8, 0u8]  // flags
     + seq![1u8, 1u8, 1u8, 1u8]  // texel block dimensions
     + seq![bytes_per_texel, 0u8, 0u8, 0u8]  // bytes per plane 0..4
}

/// The minimal DFD is always exactly `DFD_LEN` bytes, and carries the texel
/// size at `DFD_BYTES_PLANE0_OFFSET`.
pub proof fn lemma_minimal_dfd_len(bytes_per_texel: u8)
    ensures
        spec_minimal_dfd(bytes_per_texel).len() == DFD_LEN,
        spec_minimal_dfd(bytes_per_texel)[DFD_BYTES_PLANE0_OFFSET as int] == bytes_per_texel,
{
    lemma_auto_spec_u32_to_from_le_bytes();
}

/// Builds the minimal basic-format descriptor block for one texel size.
pub fn build_minimal_dfd(bytes_per_texel: u8) -> (r: Vec<u8>)
    ensures
        r@ == spec_minimal_dfd(bytes_per_texel),
        r@.len() == DFD_LEN,
{
    let mut v: Vec<u8> = Vec::new();
    crate::wire::push_u32_le(&mut v, 0);
    crate::wire::push_u32_le(&mut v, 0);
    crate::wire::push_u32_le(&mut v, 2);
    crate::wire::push_u32_le(&mut v, 28);
    v.push(2);
    v.push(1);
    v.push(0);
    v.push(0);
    v.push(1);
    v.push(1);
    v.push(1);
    v.push(1);
    v.push(bytes_per_texel);
    v.push(0);
    v.push(0);
    v.push(0);
    proof {
        assert(v@ =~= spec_minimal_dfd(bytes_per_texel));
        lemma_minimal_dfd_len(bytes_per_texel);
    }
    v
}

/// Reads the DFD's location out of a parsed header.
///
/// Only the header-declared pair is authoritative for locating the level
/// index that follows the DFD; nothing inside the DFD block is consulted
/// for that purpose.
pub fn parse_dfd_offset_length(h: &ContainerHeader) -> (r: (u32, u32))
    ensures
        r.0 == h.dfd_byte_offset,
        r.1 == h.dfd_byte_length,
{
    (h.dfd_byte_offset, h.dfd_byte_length)
}

} // verus!
