//! Encode/decode of the per-level index table.
//!
//! Each mip level gets one 24-byte record of three little-endian u64 values:
//! byte offset, byte length, and uncompressed byte length.  The table starts
//! at the first 4-byte boundary after the data format descriptor; each record
//! is validated on its own before the container reader slices payloads.

use crate::align::spec_align_up;
use crate::error::FormatError;
use crate::wire::{push_u64_le, read_u64_le, spec_field_u64};
use vstd::bytes::{lemma_auto_spec_u64_to_from_le_bytes, spec_u64_to_le_bytes};
use vstd::prelude::*;

verus! {

/// Byte length of one level index record.
pub const LEVEL_INDEX_ENTRY_LEN: usize = 24;

/// One record of the level index: where a mip level's payload lives and how
/// long it is, compressed and uncompressed.  For an uncompressed level the
/// two lengths must agree.
#[derive(Clone, Copy, Debug, PartialEq, Eq, Structural)]
pub struct LevelIndexEntry {
    /// Offset of the level payload from the start of the buffer.
    pub byte_offset: u64,
    /// Stored byte length of the level payload.
    pub byte_length: u64,
    /// Byte length of the payload once any supercompression is undone.
    pub uncompressed_byte_length: u64,
}

/// The 24 bytes of one record, little-endian, in field order.
pub open spec fn spec_entry_bytes(e: LevelIndexEntry) -> Seq<u8> {
    spec_u64_to_le_bytes(e.byte_offset) + spec_u64_to_le_bytes(e.byte_length)
        + spec_u64_to_le_bytes(e.uncompressed_byte_length)
}

/// The byte string of a whole table: records in level order, level 0 first.
pub open spec fn spec_level_index_bytes(entries: Seq<LevelIndexEntry>) -> Seq<u8>
    decreases entries.len(),
{
    if entries.len() == 0 {
        Seq::empty()
    } else {
        spec_level_index_bytes(entries.drop_last()) + spec_entry_bytes(entries.last())
    }
}

/// A table of n records is exactly 24·n bytes.
pub proof fn lemma_level_index_bytes_len(entries: Seq<LevelIndexEntry>)
    ensures
        spec_level_index_bytes(entries).len() == LEVEL_INDEX_ENTRY_LEN * entries.len(),
    decreases entries.len(),
{
    lemma_auto_spec_u64_to_from_le_bytes();
    if entries.len() > 0 {
        lemma_level_index_bytes_len(entries.drop_last());
    }
}

/// The record parsed from the 24 bytes at offset `base` of `s`.
pub open spec fn spec_parse_entry(s: Seq<u8>, base: int) -> LevelIndexEntry
    recommends
        0 <= base,
        base + LEVEL_INDEX_ENTRY_LEN <= s.len(),
{
    LevelIndexEntry {
        byte_offset: spec_field_u64(s, base),
        byte_length: spec_field_u64(s, base + 8),
        uncompressed_byte_length: spec_field_u64(s, base + 16),
    }
}

/// Parsing the bytes of a record placed at `base` inside a larger buffer
/// recovers the record.
pub proof fn lemma_parse_entry_roundtrip(s: Seq<u8>, base: int, e: LevelIndexEntry)
    requires
        0 <= base,
        base + LEVEL_INDEX_ENTRY_LEN <= s.len(),
        s.subrange(base, base + LEVEL_INDEX_ENTRY_LEN) == spec_entry_bytes(e),
    ensures
        spec_parse_entry(s, base) == e,
{
    lemma_auto_spec_u64_to_from_le_bytes();
    let rec = spec_entry_bytes(e);
    assert(s.subrange(base, base + 8) =~= rec.subrange(0, 8));
    assert(s.subrange(base + 8, base + 16) =~= rec.subrange(8, 16));
    assert(s.subrange(base + 16, base + 24) =~= rec.subrange(16, 24));
    assert(rec.subrange(0, 8) =~= spec_u64_to_le_bytes(e.byte_offset));
    assert(rec.subrange(8, 16) =~= spec_u64_to_le_bytes(e.byte_length));
    assert(rec.subrange(16, 24) =~= spec_u64_to_le_bytes(e.uncompressed_byte_length));
}

/// Why one record, taken on its own, is rejected: `None` when it passes.
///
/// A record fails with `OffsetOutOfRange` when its payload would reach past
/// the end of the buffer, and with `SizeMismatch` when the level claims to be
/// uncompressed (scheme 0) yet reports different stored and uncompressed
/// lengths.
pub open spec fn spec_record_error(
    e: LevelIndexEntry,
    buffer_len: int,
    scheme: u32,
    level: u32,
) -> Option<FormatError> {
    if e.byte_offset + e.byte_length > buffer_len {
        Some(
            FormatError::OffsetOutOfRange {
                offset: e.byte_offset,
                length: e.byte_length,
                buffer_len: buffer_len as u64,
            },
        )
    } else if scheme == 0 && e.byte_length != e.uncompressed_byte_length {
        Some(
            FormatError::SizeMismatch {
                level,
                expected: e.uncompressed_byte_length,
                actual: e.byte_length,
            },
        )
    } else {
        None
    }
}

/// The records from level `i` up to `count`, parsed from the table at `base`,
/// or the error of the first record that fails.
pub open spec fn spec_records(
    s: Seq<u8>,
    base: int,
    count: u32,
    scheme: u32,
    i: u32,
) -> Result<Seq<LevelIndexEntry>, FormatError>
    recommends
        0 <= base,
        base + LEVEL_INDEX_ENTRY_LEN * count <= s.len(),
    decreases count - i,
{
    if i >= count {
        Ok(Seq::empty())
    } else {
        let e = spec_parse_entry(s, base + LEVEL_INDEX_ENTRY_LEN * i);
        match spec_record_error(e, s.len() as int, scheme, i) {
            Some(err) => Err(err),
            None => match spec_records(s, base, count, scheme, (i + 1) as u32) {
                Ok(rest) => Ok(seq![e] + rest),
                Err(err) => Err(err),
            },
        }
    }
}

/// When every record from `i` on parses cleanly, `spec_records` returns them
/// all, in order.
proof fn lemma_records_all_ok(s: Seq<u8>, base: int, count: u32, scheme: u32, i: u32)
    requires
        i <= count,
        forall|j: int|
            i <= j < count ==> spec_record_error(
                #[trigger] spec_parse_entry(s, base + LEVEL_INDEX_ENTRY_LEN * j),
                s.len() as int,
                scheme,
                j as u32,
            ) is None,
    ensures
        spec_records(s, base, count, scheme, i) == Ok::<_, FormatError>(
            Seq::new((count - i) as nat, |k: int| spec_parse_entry(s, base + LEVEL_INDEX_ENTRY_LEN * (i + k))),
        ),
    decreases count - i,
{
    let want = Seq::new(
        (count - i) as nat,
        |k: int| spec_parse_entry(s, base + LEVEL_INDEX_ENTRY_LEN * (i + k)),
    );
    if i >= count {
        assert(want =~= Seq::empty());
    } else {
        lemma_records_all_ok(s, base, count, scheme, (i + 1) as u32);
        let e = spec_parse_entry(s, base + LEVEL_INDEX_ENTRY_LEN * i);
        let rest = Seq::new(
            (count - i - 1) as nat,
            |k: int| spec_parse_entry(s, base + LEVEL_INDEX_ENTRY_LEN * (i + 1 + k)),
        );
        assert(want =~= seq![e] + rest);
    }
}

/// When the records before `bad` parse cleanly and record `bad` fails,
/// `spec_records` reports record `bad`'s error.
proof fn lemma_records_first_err(
    s: Seq<u8>,
    base: int,
    count: u32,
    scheme: u32,
    i: u32,
    bad: u32,
    err: FormatError,
)
    requires
        i <= bad < count,
        forall|j: int|
            i <= j < bad ==> spec_record_error(
                #[trigger] spec_parse_entry(s, base + LEVEL_INDEX_ENTRY_LEN * j),
                s.len() as int,
                scheme,
                j as u32,
            ) is None,
        spec_record_error(
            spec_parse_entry(s, base + LEVEL_INDEX_ENTRY_LEN * bad),
            s.len() as int,
            scheme,
            bad,
        ) == Some(err),
    ensures
        spec_records(s, base, count, scheme, i) == Err::<Seq<LevelIndexEntry>, _>(err),
    decreases bad - i,
{
    if i < bad {
        lemma_records_first_err(s, base, count, scheme, (i + 1) as u32, bad, err);
    }
}

/// What every record of a validated table satisfies: its payload lies inside
/// the buffer, and under scheme 0 its stored and uncompressed lengths agree.
pub open spec fn spec_entries_valid(
    buffer_len: int,
    entries: Seq<LevelIndexEntry>,
    scheme: u32,
) -> bool {
    forall|j: int|
        0 <= j < entries.len() ==> (#[trigger] entries[j]).byte_offset + entries[j].byte_length
            <= buffer_len && (scheme == 0 ==> entries[j].byte_length
            == entries[j].uncompressed_byte_length)
}

/// What `decode_level_index` returns: the table located at the first 4-byte
/// boundary after the DFD, rejected as truncated when the buffer cannot hold
/// `count` records, otherwise validated record by record.
pub open spec fn spec_decode_level_index(
    s: Seq<u8>,
    dfd_offset: u32,
    dfd_length: u32,
    count: u32,
    scheme: u32,
) -> Result<Seq<LevelIndexEntry>, FormatError> {
    let base = spec_align_up(dfd_offset + dfd_length, 4);
    if base + LEVEL_INDEX_ENTRY_LEN * count > s.len() {
        Err(
            FormatError::Truncated {
                needed: (base + LEVEL_INDEX_ENTRY_LEN * count) as u64,
                actual: s.len() as u64,
            },
        )
    } else {
        spec_records(s, base, count, scheme, 0)
    }
}

/// Serializes a table of records, 24 bytes each, level 0 first.
pub fn encode_level_index(entries: &[LevelIndexEntry]) -> (r: Vec<u8>)
    ensures
        r@ == spec_level_index_bytes(entries@),
        r@.len() == LEVEL_INDEX_ENTRY_LEN * entries@.len(),
{
    let mut v: Vec<u8> = Vec::new();
    let mut i: usize = 0;
    let n: usize = entries.len();
    while i < n
        invariant
            0 <= i <= n,
            n == entries@.len(),
            v@ == spec_level_index_bytes(entries@.take(i as int)),
        decreases n - i,
    {
        let e = *vstd::slice::slice_index_get(entries, i);
        push_u64_le(&mut v, e.byte_offset);
        push_u64_le(&mut v, e.byte_length);
        push_u64_le(&mut v, e.uncompressed_byte_length);
        proof {
            let taken = entries@.take((i + 1) as int);
            assert(taken.drop_last() =~= entries@.take(i as int));
            assert(taken.last() == e);
            assert(v@ =~= spec_level_index_bytes(taken));
        }
        i = i + 1;
    }
    proof {
        assert(entries@.take(n as int) =~= entries@);
        lemma_level_index_bytes_len(entries@);
    }
    v
}

/// Locates, parses and validates the level index table.
///
/// The table's position is derived from the DFD's declared extent — never
/// from a fixed offset, since the DFD's length varies.  Each record is
/// checked on its own: its payload must lie inside the buffer, and an
/// uncompressed level must report equal stored and uncompressed lengths.
pub fn decode_level_index(
    bytes: &[u8],
    dfd_offset: u32,
    dfd_length: u32,
    level_count: u32,
    scheme: u32,
) -> (r: Result<Vec<LevelIndexEntry>, FormatError>)
    ensures
        match r {
            Ok(v) => spec_decode_level_index(bytes@, dfd_offset, dfd_length, level_count, scheme)
                == Ok::<_, FormatError>(v@),
            Err(e) => spec_decode_level_index(bytes@, dfd_offset, dfd_length, level_count, scheme)
                == Err::<Seq<LevelIndexEntry>, _>(e),
        },
        r matches Ok(v) ==> v@.len() == level_count && spec_entries_valid(
            bytes@.len() as int,
            v@,
            scheme,
        ),
{
    proof {
        vstd::slice::axiom_spec_len(bytes);
    }
    let len_u64: u64 = bytes.len() as u64;
    let base: u64 = crate::align::align_up(dfd_offset as u64 + dfd_length as u64, 4);
    let end: u64 = base + 24 * (level_count as u64);
    if end > len_u64 {
        return Err(FormatError::Truncated { needed: end, actual: len_u64 });
    }
    let mut out: Vec<LevelIndexEntry> = Vec::new();
    let mut i: u32 = 0;
    let ghost sbase = base as int;
    while i < level_count
        invariant
            0 <= i <= level_count,
            sbase == base,
            sbase == spec_align_up(dfd_offset + dfd_length, 4),
            sbase + LEVEL_INDEX_ENTRY_LEN * level_count <= bytes@.len(),
            bytes@.len() == len_u64,
            len_u64 <= usize::MAX as u64,
            out@.len() == i,
            forall|j: int|
                0 <= j < i ==> #[trigger] out@[j] == spec_parse_entry(
                    bytes@,
                    sbase + LEVEL_INDEX_ENTRY_LEN * j,
                ),
            forall|j: int|
                0 <= j < i ==> spec_record_error(
                    #[trigger] spec_parse_entry(bytes@, sbase + LEVEL_INDEX_ENTRY_LEN * j),
                    bytes@.len() as int,
                    scheme,
                    j as u32,
                ) is None,
        decreases level_count - i,
    {
        let off64: u64 = base + 24 * (i as u64);
        proof {
            assert(off64 + 24 <= len_u64);
            assert(len_u64 <= usize::MAX as u64);
        }
        let off: usize = off64 as usize;
        let e = LevelIndexEntry {
            byte_offset: read_u64_le(bytes, off),
            byte_length: read_u64_le(bytes, off + 8),
            uncompressed_byte_length: read_u64_le(bytes, off + 16),
        };
        if e.byte_offset > len_u64 || e.byte_length > len_u64 - e.byte_offset {
            let err = FormatError::OffsetOutOfRange {
                offset: e.byte_offset,
                length: e.byte_length,
                buffer_len: len_u64,
            };
            proof {
                lemma_records_first_err(bytes@, sbase, level_count, scheme, 0, i, err);
            }
            return Err(err);
        }
        if scheme == 0 && e.byte_length != e.uncompressed_byte_length {
            let err = FormatError::SizeMismatch {
                level: i,
                expected: e.uncompressed_byte_length,
                actual: e.byte_length,
            };
            proof {
                lemma_records_first_err(bytes@, sbase, level_count, scheme, 0, i, err);
            }
            return Err(err);
        }
        out.push(e);
        i = i + 1;
    }
    proof {
        lemma_records_all_ok(bytes@, sbase, level_count, scheme, 0);
        let w = spec_records(bytes@, sbase, level_count, scheme, 0)->Ok_0;
        assert forall|k: int| 0 <= k < level_count implies w[k] == out@[k] by {
            assert(w[k] == spec_parse_entry(bytes@, sbase + LEVEL_INDEX_ENTRY_LEN * (0 + k)));
        }
        assert(w =~= out@);
    }
    Ok(out)
}

} // verus!
