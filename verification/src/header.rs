//! Fixed-layout codec for the 12-byte identifier and the 80-byte header.
//!
//! The header is a pure bit-layout transcoder: apart from checking the magic
//! identifier and that enough bytes are present, it does no semantic
//! validation.  Judging the parsed values (for example that a width is
//! plausible) is the container reader's job.

use crate::error::FormatError;
use crate::wire::{push_u32_le, read_u32_le, spec_field_u32};
use vstd::bytes::{lemma_auto_spec_u32_to_from_le_bytes, spec_u32_to_le_bytes};
use vstd::prelude::*;
use vstd::slice::slice_index_get;

verus! {

/// Byte count of the magic identifier at the start of every container.
pub const MAGIC_LEN: usize = 12;

/// Byte count of the fixed header that follows the identifier.
pub const HEADER_LEN: usize = 80;

/// Bytes a buffer must hold before the fixed-layout part can be read:
/// identifier plus header.
pub const PREAMBLE_LEN: usize = 92;

/// The magic identifier that opens every KTX2 container.
pub open spec fn spec_magic() -> Seq<u8> {
    seq![0xabu8, 0x4bu8, 0x54u8, 0x58u8, 0x20u8, 0x32u8, 0x30u8, 0xbbu8, 0x0du8, 0x0au8, 0x1au8, 0x0au8]
}

/// The magic identifier as a vector, for writing and comparing.
pub fn magic_bytes() -> (r: Vec<u8>)
    ensures
        r@ == spec_magic(),
{
    let mut v: Vec<u8> = Vec::new();
    v.push(0xab);
    v.push(0x4b);
    v.push(0x54);
    v.push(0x58);
    v.push(0x20);
    v.push(0x32);
    v.push(0x30);
    v.push(0xbb);
    v.push(0x0d);
    v.push(0x0a);
    v.push(0x1a);
    v.push(0x0a);
    proof {
        assert(v@ =~= spec_magic());
    }
    v
}

/// The parsed fixed header of a container.
///
/// All fields are stored exactly as read; `pixel_height == 0` (a 1D texture)
/// and `pixel_depth == 0` (a 2D texture) are normalization hints that the
/// container reader interprets, not this struct.
#[derive(Clone, Copy, Debug, PartialEq, Eq, Structural)]
pub struct ContainerHeader {
    /// Pixel-format tag; 0 means unspecified/raw.
    pub vk_format: u32,
    /// Bytes per channel component.
    pub type_size: u32,
    /// Width of the level-0 image in pixels.
    pub pixel_width: u32,
    /// Height of the level-0 image in pixels; 0 is read as 1.
    pub pixel_height: u32,
    /// Depth of the level-0 image; 0 means a 2D texture.
    pub pixel_depth: u32,
    /// Number of array elements.
    pub layer_count: u32,
    /// Number of cube-map faces.
    pub face_count: u32,
    /// Number of mip levels indexed by the level index table.
    pub level_count: u32,
    /// Container-level compression scheme; 0 means none.
    pub supercompression_scheme: u32,
    /// Offset of the data format descriptor from the start of the buffer.
    pub dfd_byte_offset: u32,
    /// Byte length of the data format descriptor.
    pub dfd_byte_length: u32,
}

/// The header parsed positionally from a buffer that starts with the magic
/// identifier and holds at least `PREAMBLE_LEN` bytes.
pub open spec fn spec_parse_header(s: Seq<u8>) -> ContainerHeader
    recommends
        s.len() >= PREAMBLE_LEN,
{
    ContainerHeader {
        vk_format: spec_field_u32(s, 12),
        type_size: spec_field_u32(s, 16),
        pixel_width: spec_field_u32(s, 20),
        pixel_height: spec_field_u32(s, 24),
        pixel_depth: spec_field_u32(s, 28),
        layer_count: spec_field_u32(s, 32),
        face_count: spec_field_u32(s, 36),
        level_count: spec_field_u32(s, 40),
        supercompression_scheme: spec_field_u32(s, 44),
        dfd_byte_offset: spec_field_u32(s, 48),
        dfd_byte_length: spec_field_u32(s, 52),
    }
}

/// The 80 header bytes for `h`: eleven fields little-endian in fixed order,
/// then zeros for the reserved words and the key/value region the codec does
/// not use.
pub open spec fn spec_header_bytes(h: ContainerHeader) -> Seq<u8> {
    spec_u32_to_le_bytes(h.vk_format) + spec_u32_to_le_bytes(h.type_size) + spec_u32_to_le_bytes(
        h.pixel_width,
    ) + spec_u32_to_le_bytes(h.pixel_height) + spec_u32_to_le_bytes(h.pixel_depth)
        + spec_u32_to_le_bytes(h.layer_count) + spec_u32_to_le_bytes(h.face_count)
        + spec_u32_to_le_bytes(h.level_count) + spec_u32_to_le_bytes(h.supercompression_scheme)
        + spec_u32_to_le_bytes(h.dfd_byte_offset) + spec_u32_to_le_bytes(h.dfd_byte_length)
        + Seq::new(36, |i: int| 0u8)
}

/// The header byte string is always exactly `HEADER_LEN` bytes.
pub proof fn lemma_header_bytes_len(h: ContainerHeader)
    ensures
        spec_header_bytes(h).len() == HEADER_LEN,
{
    lemma_auto_spec_u32_to_from_le_bytes();
}

/// Parsing a buffer whose header region holds the bytes of `h` recovers `h`.
pub proof fn lemma_parse_header_of_bytes(s: Seq<u8>, h: ContainerHeader)
    requires
        s.len() >= PREAMBLE_LEN,
        s.subrange(MAGIC_LEN as int, PREAMBLE_LEN as int) == spec_header_bytes(h),
    ensures
        spec_parse_header(s) == h,
{
    lemma_auto_spec_u32_to_from_le_bytes();
    let hb = spec_header_bytes(h);
    assert(hb.subrange(0, 4) =~= spec_u32_to_le_bytes(h.vk_format));
    assert(hb.subrange(4, 8) =~= spec_u32_to_le_bytes(h.type_size));
    assert(hb.subrange(8, 12) =~= spec_u32_to_le_bytes(h.pixel_width));
    assert(hb.subrange(12, 16) =~= spec_u32_to_le_bytes(h.pixel_height));
    assert(hb.subrange(16, 20) =~= spec_u32_to_le_bytes(h.pixel_depth));
    assert(hb.subrange(20, 24) =~= spec_u32_to_le_bytes(h.layer_count));
    assert(hb.subrange(24, 28) =~= spec_u32_to_le_bytes(h.face_count));
    assert(hb.subrange(28, 32) =~= spec_u32_to_le_bytes(h.level_count));
    assert(hb.subrange(32, 36) =~= spec_u32_to_le_bytes(h.supercompression_scheme));
    assert(hb.subrange(36, 40) =~= spec_u32_to_le_bytes(h.dfd_byte_offset));
    assert(hb.subrange(40, 44) =~= spec_u32_to_le_bytes(h.dfd_byte_length));
    assert(s.subrange(12, 16) =~= hb.subrange(0, 4));
    assert(s.subrange(16, 20) =~= hb.subrange(4, 8));
    assert(s.subrange(20, 24) =~= hb.subrange(8, 12));
    assert(s.subrange(24, 28) =~= hb.subrange(12, 16));
    assert(s.subrange(28, 32) =~= hb.subrange(16, 20));
    assert(s.subrange(32, 36) =~= hb.subrange(20, 24));
    assert(s.subrange(36, 40) =~= hb.subrange(24, 28));
    assert(s.subrange(40, 44) =~= hb.subrange(28, 32));
    assert(s.subrange(44, 48) =~= hb.subrange(32, 36));
    assert(s.subrange(48, 52) =~= hb.subrange(36, 40));
    assert(s.subrange(52, 56) =~= hb.subrange(40, 44));
}

/// Two buffers that agree on their first 92 bytes parse to the same header
/// and agree on whether the magic identifier matches.
pub proof fn lemma_parse_header_agree(s: Seq<u8>, c: Seq<u8>)
    requires
        s.len() >= PREAMBLE_LEN,
        c.len() >= PREAMBLE_LEN,
        forall|i: int| 0 <= i < PREAMBLE_LEN ==> c[i] == s[i],
    ensures
        spec_parse_header(c) == spec_parse_header(s),
        spec_magic_matches(c) == spec_magic_matches(s),
{
    assert(c.subrange(0, MAGIC_LEN as int) =~= s.subrange(0, MAGIC_LEN as int));
    assert forall|off: int| 0 <= off && off + 4 <= PREAMBLE_LEN implies spec_field_u32(c, off)
        == spec_field_u32(s, off) by {
        assert(c.subrange(off, off + 4) =~= s.subrange(off, off + 4));
    }
}

/// Whether the buffer opens with the magic identifier.
pub open spec fn spec_magic_matches(s: Seq<u8>) -> bool
    recommends
        s.len() >= MAGIC_LEN,
{
    s.subrange(0, MAGIC_LEN as int) == spec_magic()
}

/// Compares the first 12 bytes of `bytes` against the magic identifier.
pub fn magic_matches(bytes: &[u8]) -> (r: bool)
    requires
        bytes@.len() >= MAGIC_LEN,
    ensures
        r == spec_magic_matches(bytes@),
{
    let magic = magic_bytes();
    let mut i: usize = 0;
    while i < MAGIC_LEN
        invariant
            0 <= i <= MAGIC_LEN,
            bytes@.len() >= MAGIC_LEN,
            magic@ == spec_magic(),
            forall|j: int| 0 <= j < i ==> bytes@[j] == spec_magic()[j],
        decreases MAGIC_LEN - i,
    {
        if *slice_index_get(bytes, i) != magic[i] {
            proof {
                assert(bytes@.subrange(0, MAGIC_LEN as int)[i as int] != spec_magic()[i as int]);
            }
            return false;
        }
        i = i + 1;
    }
    proof {
        assert(bytes@.subrange(0, MAGIC_LEN as int) =~= spec_magic());
    }
    true
}

/// Serializes `h` into its 80-byte little-endian layout.
///
/// The reserved words and the key/value directory are written as zeros; the
/// magic identifier is not part of the header and is written separately.
pub fn encode_header(h: &ContainerHeader) -> (r: Vec<u8>)
    ensures
        r@ == spec_header_bytes(*h),
        r@.len() == HEADER_LEN,
{
    let mut v: Vec<u8> = Vec::new();
    push_u32_le(&mut v, h.vk_format);
    push_u32_le(&mut v, h.type_size);
    push_u32_le(&mut v, h.pixel_width);
    push_u32_le(&mut v, h.pixel_height);
    push_u32_le(&mut v, h.pixel_depth);
    push_u32_le(&mut v, h.layer_count);
    push_u32_le(&mut v, h.face_count);
    push_u32_le(&mut v, h.level_count);
    push_u32_le(&mut v, h.supercompression_scheme);
    push_u32_le(&mut v, h.dfd_byte_offset);
    push_u32_le(&mut v, h.dfd_byte_length);
    let ghost after_fields = v@;
    let mut k: usize = 0;
    while k < 36
        invariant
            0 <= k <= 36,
            v@ == after_fields + Seq::new(k as nat, |i: int| 0u8),
        decreases 36 - k,
    {
        v.push(0);
        proof {
            assert(v@ =~= after_fields + Seq::new((k + 1) as nat, |i: int| 0u8));
        }
        k = k + 1;
    }
    proof {
        assert(v@ =~= spec_header_bytes(*h));
        lemma_header_bytes_len(*h);
    }
    v
}

/// Deserializes the magic identifier and fixed header from `bytes`.
///
/// Succeeds exactly when the buffer opens with the magic identifier and holds
/// at least `PREAMBLE_LEN` bytes; the returned header is the positional parse
/// of the 80 bytes after the identifier.  A buffer too short to even hold the
/// identifier is reported as truncated, never as a magic mismatch.
pub fn decode_header(bytes: &[u8]) -> (r: Result<ContainerHeader, FormatError>)
    ensures
        r == spec_decode_header(bytes@),
{
    if bytes.len() < MAGIC_LEN {
        return Err(FormatError::Truncated { needed: PREAMBLE_LEN as u64, actual: bytes.len() as u64 });
    }
    if !magic_matches(bytes) {
        return Err(FormatError::BadMagic);
    }
    if bytes.len() < PREAMBLE_LEN {
        return Err(FormatError::Truncated { needed: PREAMBLE_LEN as u64, actual: bytes.len() as u64 });
    }
    Ok(
        ContainerHeader {
            vk_format: read_u32_le(bytes, 12),
            type_size: read_u32_le(bytes, 16),
            pixel_width: read_u32_le(bytes, 20),
            pixel_height: read_u32_le(bytes, 24),
            pixel_depth: read_u32_le(bytes, 28),
            layer_count: read_u32_le(bytes, 32),
            face_count: read_u32_le(bytes, 36),
            level_count: read_u32_le(bytes, 40),
            supercompression_scheme: read_u32_le(bytes, 44),
            dfd_byte_offset: read_u32_le(bytes, 48),
            dfd_byte_length: read_u32_le(bytes, 52),
        },
    )
}

/// What `decode_header` returns for a buffer.
pub open spec fn spec_decode_header(s: Seq<u8>) -> Result<ContainerHeader, FormatError> {
    if s.len() < MAGIC_LEN {
        Err(FormatError::Truncated { needed: PREAMBLE_LEN as u64, actual: s.len() as u64 })
    } else if !spec_magic_matches(s) {
        Err(FormatError::BadMagic)
    } else if s.len() < PREAMBLE_LEN {
        Err(FormatError::Truncated { needed: PREAMBLE_LEN as u64, actual: s.len() as u64 })
    } else {
        Ok(spec_parse_header(s))
    }
}

} // verus!
