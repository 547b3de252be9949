//! Laws relating the container writer and reader.
//!
//! The writer's output always decodes back to the dimensions and payload it
//! was given, and a buffer whose level index was corrupted is always rejected
//! rather than silently accepted.

use crate::align::spec_align_up;
use crate::error::FormatError;
use crate::header::{
    lemma_header_bytes_len, lemma_parse_header_agree, lemma_parse_header_of_bytes,
    spec_decode_header, spec_magic, spec_magic_matches, spec_parse_header, MAGIC_LEN, PREAMBLE_LEN,
};
use crate::dfd::{lemma_minimal_dfd_len, spec_minimal_dfd, DFD_LEN};
use crate::level_index::{
    lemma_parse_entry_roundtrip, spec_decode_level_index, spec_entry_bytes, spec_parse_entry,
    spec_record_error, spec_records, LevelIndexEntry,
};
use crate::reader::{
    spec_decode, spec_level_error, spec_level_item, spec_level_size, spec_mip_dim,
    spec_read_levels, PayloadV, TextureV,
};
use crate::writer::{lemma_writer_layout, spec_encode, spec_writer_entry, spec_writer_header};
use vstd::bytes::{lemma_auto_spec_u64_to_from_le_bytes, spec_u64_to_le_bytes};
use vstd::prelude::*;

verus! {

/// Where each section of the writer's output lies: the magic and header parse
/// back to the header that was written, the texel size sits at its DFD slot,
/// the level index record occupies bytes 120..144, and the payload fills the
/// rest of the buffer from byte 144.
pub proof fn lemma_encode_layout(width: u32, height: u32, bytes_per_texel: u8, payload: Seq<u8>)
    requires
        payload.len() <= u64::MAX,
    ensures
        ({
            let s = spec_encode(width, height, bytes_per_texel, payload);
            &&& s.len() == 144 + payload.len()
            &&& spec_magic_matches(s)
            &&& spec_parse_header(s) == spec_writer_header(width, height)
            &&& s[PREAMBLE_LEN + crate::dfd::DFD_BYTES_PLANE0_OFFSET] == bytes_per_texel
            &&& s.subrange(120, 144) == spec_entry_bytes(spec_writer_entry(payload.len() as u64))
            &&& s.subrange(144, s.len() as int) == payload
        }),
{
    let h = spec_writer_header(width, height);
    let m = spec_magic();
    let hb = crate::header::spec_header_bytes(h);
    let db = spec_minimal_dfd(bytes_per_texel);
    let ib = spec_entry_bytes(spec_writer_entry(payload.len() as u64));
    let s = spec_encode(width, height, bytes_per_texel, payload);
    lemma_header_bytes_len(h);
    lemma_minimal_dfd_len(bytes_per_texel);
    lemma_auto_spec_u64_to_from_le_bytes();
    assert(s.len() == 144 + payload.len());
    assert(s.subrange(0, MAGIC_LEN as int) =~= m);
    assert(s.subrange(MAGIC_LEN as int, PREAMBLE_LEN as int) =~= hb);
    lemma_parse_header_of_bytes(s, h);
    assert(s[PREAMBLE_LEN + crate::dfd::DFD_BYTES_PLANE0_OFFSET] == db[
        crate::dfd::DFD_BYTES_PLANE0_OFFSET as int
    ]);
    assert(s.subrange(120, 144) =~= ib);
    assert(s.subrange(144, s.len() as int) =~= payload);
}

/// Round trip: decoding the writer's output recovers the written width,
/// height and payload exactly — the descriptor holds one uncompressed level
/// whose bytes are the payload, indexed at byte offset 144.
pub proof fn lemma_round_trip(width: u32, height: u32, payload: Seq<u8>)
    requires
        1 <= width,
        1 <= height,
        payload.len() == (width as int) * (height as int) * 4,
        payload.len() <= u64::MAX,
    ensures
        spec_decode(spec_encode(width, height, 4, payload)) == Ok::<_, FormatError>(
            (TextureV {
                width,
                height,
                format: 0,
                level_count: 1,
                levels: seq![
                    (spec_writer_entry(payload.len() as u64), PayloadV::Uncompressed(payload)),
                ],
            }),
        ),
{
    let s = spec_encode(width, height, 4, payload);
    let h = spec_writer_header(width, height);
    let entry = spec_writer_entry(payload.len() as u64);
    lemma_encode_layout(width, height, 4, payload);
    lemma_writer_layout();
    // Header stage: the magic matches and the fixed header parses back.
    assert(spec_decode_header(s) == Ok::<_, FormatError>(h));
    // DFD stage: offset 92, length 28, in range; texel size read from the DFD.
    assert(h.dfd_byte_offset == PREAMBLE_LEN && h.dfd_byte_length == DFD_LEN);
    // Level index stage: one record at byte 120.
    assert(spec_align_up(PREAMBLE_LEN + DFD_LEN, 4) == 120);
    lemma_parse_entry_roundtrip(s, 120, entry);
    let e0 = spec_parse_entry(s, 120);
    assert(e0 == entry);
    assert(spec_record_error(e0, s.len() as int, 0, 0) is None);
    assert(spec_records(s, 120, 1, 0, 1) == Ok::<_, FormatError>(Seq::<LevelIndexEntry>::empty()));
    assert(seq![e0] + Seq::<LevelIndexEntry>::empty() =~= seq![e0]);
    assert(spec_decode_level_index(s, PREAMBLE_LEN as u32, DFD_LEN as u32, 1, 0) == Ok::<
        _,
        FormatError,
    >(seq![e0]));
    // Reader stage: the single level's size agrees and its slice is the payload.
    assert(width >> 0u32 == width) by (bit_vector);
    assert(height >> 0u32 == height) by (bit_vector);
    assert(spec_mip_dim(width, 0) == width);
    assert(spec_mip_dim(height, 0) == height);
    assert(spec_level_size(width, height, 4, 0) == (width as int) * (height as int) * 4);
    assert(spec_level_error(e0, width, height, 4, 0, 0) is None);
    let item = spec_level_item(s, e0, 0);
    assert(s.subrange(e0.byte_offset as int, e0.byte_offset + e0.byte_length) == s.subrange(
        144,
        s.len() as int,
    ));
    assert(item == (e0, PayloadV::Uncompressed(payload)));
    let entries = seq![e0];
    assert(spec_read_levels(s, entries, width, height, 4, 0, 1) == Ok::<_, FormatError>(
        Seq::<(LevelIndexEntry, PayloadV)>::empty(),
    ));
    assert(seq![item] + Seq::<(LevelIndexEntry, PayloadV)>::empty() =~= seq![item]);
    assert(spec_read_levels(s, entries, width, height, 4, 0, 0) == Ok::<_, FormatError>(
        seq![item],
    ));
}

/// Magic rejection: any buffer whose first 12 bytes differ from the
/// identifier is rejected as `BadMagic`, regardless of its remaining
/// content.
pub proof fn lemma_bad_magic_rejected(s: Seq<u8>)
    requires
        s.len() >= MAGIC_LEN,
        s.subrange(0, MAGIC_LEN as int) != spec_magic(),
    ensures
        spec_decode(s) == Err::<TextureV, _>(FormatError::BadMagic),
{
}

/// Truncation: a buffer shorter than the 92-byte preamble is rejected as
/// `Truncated`, as long as what identifier bytes it does hold match — a
/// short buffer that already fails the identifier check reports `BadMagic`
/// instead.
pub proof fn lemma_truncated_rejected(s: Seq<u8>)
    requires
        s.len() < PREAMBLE_LEN,
        s.len() >= MAGIC_LEN ==> s.subrange(0, MAGIC_LEN as int) == spec_magic(),
    ensures
        spec_decode(s) == Err::<TextureV, _>(
            FormatError::Truncated { needed: PREAMBLE_LEN as u64, actual: s.len() as u64 },
        ),
{
}

/// Corruption detection: take the writer's output and overwrite the level
/// index's byteLength field (bytes 128..136) with any other value — decoding
/// then fails with `SizeMismatch` or `OffsetOutOfRange`, never silent
/// acceptance.
pub proof fn lemma_corrupted_length_rejected(width: u32, height: u32, payload: Seq<u8>, bad: u64)
    requires
        1 <= width,
        1 <= height,
        payload.len() == (width as int) * (height as int) * 4,
        payload.len() <= u64::MAX,
        bad != payload.len(),
    ensures
        ({
            let s = spec_encode(width, height, 4, payload);
            let c = s.subrange(0, 128) + spec_u64_to_le_bytes(bad) + s.subrange(
                136,
                s.len() as int,
            );
            &&& spec_decode(c) is Err
            &&& (spec_decode(c)->Err_0 matches FormatError::SizeMismatch { .. }
                || spec_decode(c)->Err_0 matches FormatError::OffsetOutOfRange { .. })
        }),
{
    let s = spec_encode(width, height, 4, payload);
    let c = s.subrange(0, 128) + spec_u64_to_le_bytes(bad) + s.subrange(136, s.len() as int);
    let h = spec_writer_header(width, height);
    let len = s.len() as int;
    lemma_encode_layout(width, height, 4, payload);
    lemma_writer_layout();
    lemma_auto_spec_u64_to_from_le_bytes();
    assert(c.len() == s.len());
    assert(forall|i: int| 0 <= i < 128 ==> #[trigger] c[i] == s[i]);
    assert(forall|i: int| 136 <= i < len ==> #[trigger] c[i] == s[i]);
    assert(c.subrange(128, 136) =~= spec_u64_to_le_bytes(bad));
    // The header region is untouched, so the header stage is unchanged.
    lemma_parse_header_agree(s, c);
    assert(spec_decode_header(c) == Ok::<_, FormatError>(h));
    assert(c[PREAMBLE_LEN + crate::dfd::DFD_BYTES_PLANE0_OFFSET] == s[PREAMBLE_LEN
        + crate::dfd::DFD_BYTES_PLANE0_OFFSET]);
    // The index record now reads back with byteLength `bad`.
    let e0 = spec_parse_entry(c, 120);
    assert(c.subrange(120, 128) =~= s.subrange(120, 128));
    assert(c.subrange(136, 144) =~= s.subrange(136, 144));
    assert(s.subrange(120, 128) =~= s.subrange(120, 144).subrange(0, 8));
    assert(s.subrange(136, 144) =~= s.subrange(120, 144).subrange(16, 24));
    let ib = spec_entry_bytes(spec_writer_entry(payload.len() as u64));
    assert(ib.subrange(0, 8) =~= spec_u64_to_le_bytes(spec_writer_entry(
        payload.len() as u64,
    ).byte_offset));
    assert(ib.subrange(16, 24) =~= spec_u64_to_le_bytes(spec_writer_entry(
        payload.len() as u64,
    ).uncompressed_byte_length));
    assert(e0.byte_offset == 144);
    assert(e0.byte_length == bad);
    assert(e0.uncompressed_byte_length == payload.len() as u64);
    // The index stage already rejects both ways the corruption can fall.
    assert(spec_align_up(PREAMBLE_LEN + DFD_LEN, 4) == 120);
    if bad > payload.len() {
        assert(spec_record_error(e0, c.len() as int, 0, 0) matches Some(
            FormatError::OffsetOutOfRange { .. },
        ));
    } else {
        assert(spec_record_error(e0, c.len() as int, 0, 0) matches Some(
            FormatError::SizeMismatch { .. },
        ));
    }
    assert(spec_records(c, 120, 1, 0, 0) is Err);
    assert(spec_decode_level_index(c, PREAMBLE_LEN as u32, DFD_LEN as u32, 1, 0) is Err);
}

} // verus!
