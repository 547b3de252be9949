//! The container writer: from raw texel bytes to a complete byte buffer.
//!
//! The writer serializes exactly one uncompressed level of a single-face,
//! non-array texture: it is the reference producer for the reader, which in
//! turn accepts any conformant layout.  The emitted order is magic + header,
//! DFD, padding to 4 bytes, one level index record, padding to 8 bytes, then
//! the payload.

use crate::align::{align_up, spec_align_up};
use crate::dfd::{build_minimal_dfd, spec_minimal_dfd, DFD_LEN};
use crate::error::FormatError;
use crate::header::{
    encode_header, magic_bytes, spec_header_bytes, spec_magic, ContainerHeader, PREAMBLE_LEN,
};
use crate::level_index::{spec_entry_bytes, LevelIndexEntry, LEVEL_INDEX_ENTRY_LEN};
use crate::reader::spec_sat_u64;
use vstd::prelude::*;
use vstd::slice::slice_to_vec;

verus! {

/// The header the writer emits: unspecified format tag, one-byte components,
/// a single level of a single-face 2D non-array texture, no supercompression,
/// and the DFD placed directly after the fixed header.
pub open spec fn spec_writer_header(width: u32, height: u32) -> ContainerHeader {
    ContainerHeader {
        vk_format: 0,
        type_size: 1,
        pixel_width: width,
        pixel_height: height,
        pixel_depth: 0,
        layer_count: 1,
        face_count: 1,
        level_count: 1,
        supercompression_scheme: 0,
        dfd_byte_offset: PREAMBLE_LEN as u32,
        dfd_byte_length: DFD_LEN as u32,
    }
}

/// Where the writer's level index table starts: the first 4-byte boundary
/// after the DFD.
pub open spec fn spec_writer_index_offset() -> int {
    spec_align_up(PREAMBLE_LEN + DFD_LEN, 4)
}

/// Where the writer's payload starts: the first 8-byte boundary after the
/// level index table.
pub open spec fn spec_writer_data_offset() -> int {
    spec_align_up(spec_writer_index_offset() + LEVEL_INDEX_ENTRY_LEN, 8)
}

/// The writer's offsets evaluate to 120 and 144: both sections land exactly
/// on their boundaries, so the emitted buffer has no padding bytes.
pub proof fn lemma_writer_layout()
    ensures
        spec_writer_index_offset() == 120,
        spec_writer_data_offset() == 144,
{
}

/// The single level index record the writer emits for a payload of `len`
/// bytes: stored and uncompressed lengths are equal because the payload is
/// not supercompressed.
pub open spec fn spec_writer_entry(len: u64) -> LevelIndexEntry {
    LevelIndexEntry {
        byte_offset: spec_writer_data_offset() as u64,
        byte_length: len,
        uncompressed_byte_length: len,
    }
}

/// The complete buffer the writer emits for one uncompressed level.
pub open spec fn spec_encode(width: u32, height: u32, bytes_per_texel: u8, payload: Seq<u8>) -> Seq<
    u8,
> {
    spec_magic() + spec_header_bytes(spec_writer_header(width, height)) + spec_minimal_dfd(
        bytes_per_texel,
    ) + spec_entry_bytes(spec_writer_entry(payload.len() as u64)) + payload
}

/// Appends zero bytes to `v` until its length is a multiple of `boundary`.
pub fn pad_to(v: &mut Vec<u8>, boundary: u64)
    requires
        boundary > 0,
        old(v)@.len() + boundary <= usize::MAX,
    ensures
        final(v)@ == old(v)@ + Seq::new(
            (spec_align_up(old(v)@.len() as int, boundary as int) - old(v)@.len()) as nat,
            |i: int| 0u8,
        ),
        final(v)@.len() == spec_align_up(old(v)@.len() as int, boundary as int),
{
    let ghost start_len = v@.len();
    let ghost target = spec_align_up(v@.len() as int, boundary as int);
    let target_u64: u64 = align_up(v.len() as u64, boundary);
    while (v.len() as u64) < target_u64
        invariant
            start_len <= v@.len() <= target,
            target == target_u64,
            target == spec_align_up(start_len as int, boundary as int),
            v@ == old(v)@ + Seq::new((v@.len() - start_len) as nat, |i: int| 0u8),
            old(v)@.len() == start_len,
        decreases target - v@.len(),
    {
        v.push(0);
        proof {
            assert(v@ =~= old(v)@ + Seq::new((v@.len() - start_len) as nat, |i: int| 0u8));
        }
    }
}

/// Serializes one uncompressed level as a complete container buffer.
///
/// Fails with `SizeMismatch` exactly when the payload's length is not
/// width × height × bytes_per_texel; otherwise returns the buffer whose
/// layout `spec_encode` describes.  Only a single-level, single-face,
/// non-array, uncompressed texture can be written: the writer is
/// deliberately narrower than the reader.
pub fn encode(width: u32, height: u32, bytes_per_texel: u8, level0_payload: &[u8]) -> (r: Result<
    Vec<u8>,
    FormatError,
>)
    ensures
        match r {
            Ok(v) => level0_payload@.len() == (width as int) * (height as int) * (
            bytes_per_texel as int) && v@ == spec_encode(
                width,
                height,
                bytes_per_texel,
                level0_payload@,
            ),
            Err(e) => level0_payload@.len() != (width as int) * (height as int) * (
            bytes_per_texel as int) && e == (FormatError::SizeMismatch {
                level: 0,
                expected: spec_sat_u64(
                    (width as int) * (height as int) * (bytes_per_texel as int),
                ),
                actual: level0_payload@.len() as u64,
            }),
        },
{
    proof {
        vstd::slice::axiom_spec_len(level0_payload);
        vstd::arithmetic::mul::lemma_mul_upper_bound(
            width as int,
            u32::MAX as int,
            height as int,
            u32::MAX as int,
        );
        vstd::arithmetic::mul::lemma_mul_upper_bound(
            (width as int) * (height as int),
            (u32::MAX as int) * (u32::MAX as int),
            bytes_per_texel as int,
            u8::MAX as int,
        );
    }
    let expected: u128 = (width as u128) * (height as u128) * (bytes_per_texel as u128);
    if (level0_payload.len() as u128) != expected {
        let expected_u64: u64 = if expected > u64::MAX as u128 {
            u64::MAX
        } else {
            expected as u64
        };
        return Err(
            FormatError::SizeMismatch {
                level: 0,
                expected: expected_u64,
                actual: level0_payload.len() as u64,
            },
        );
    }
    let h = ContainerHeader {
        vk_format: 0,
        type_size: 1,
        pixel_width: width,
        pixel_height: height,
        pixel_depth: 0,
        layer_count: 1,
        face_count: 1,
        level_count: 1,
        supercompression_scheme: 0,
        dfd_byte_offset: PREAMBLE_LEN as u32,
        dfd_byte_length: DFD_LEN as u32,
    };
    let mut v = magic_bytes();
    let mut hb = encode_header(&h);
    v.append(&mut hb);
    let mut db = build_minimal_dfd(bytes_per_texel);
    v.append(&mut db);
    let ghost before_pad4 = v@;
    proof {
        lemma_writer_layout();
        crate::header::lemma_header_bytes_len(h);
        vstd::bytes::lemma_auto_spec_u64_to_from_le_bytes();
        assert(before_pad4.len() == 120);
    }
    pad_to(&mut v, 4);
    proof {
        assert(v@ =~= before_pad4);
    }
    let index_offset: u64 = align_up(PREAMBLE_LEN as u64 + DFD_LEN as u64, 4);
    let data_offset: u64 = align_up(index_offset + LEVEL_INDEX_ENTRY_LEN as u64, 8);
    let entry = LevelIndexEntry {
        byte_offset: data_offset,
        byte_length: level0_payload.len() as u64,
        uncompressed_byte_length: level0_payload.len() as u64,
    };
    crate::wire::push_u64_le(&mut v, entry.byte_offset);
    crate::wire::push_u64_le(&mut v, entry.byte_length);
    crate::wire::push_u64_le(&mut v, entry.uncompressed_byte_length);
    let ghost before_pad8 = v@;
    proof {
        assert(before_pad8.len() == 144);
    }
    pad_to(&mut v, 8);
    proof {
        assert(v@ =~= before_pad8);
    }
    let mut pb = slice_to_vec(level0_payload);
    v.append(&mut pb);
    proof {
        assert(entry == spec_writer_entry(level0_payload@.len() as u64));
        assert(v@ =~= spec_encode(width, height, bytes_per_texel, level0_payload@));
    }
    Ok(v)
}

} // verus!
