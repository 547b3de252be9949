//! The container reader: from a byte buffer to a structured texture.
//!
//! `decode` orchestrates the header codec, the DFD location checks and the
//! level index, then slices each level's payload out of the buffer.  All
//! offsets are derived from the header's declared DFD extent — never from a
//! fixed constant — and every declared size is validated before a payload is
//! handed out.

use crate::dfd::{DFD_BYTES_PLANE0_OFFSET, DFD_LEN};
use crate::error::FormatError;
use crate::header::{decode_header, spec_decode_header, PREAMBLE_LEN};
use crate::level_index::{
    decode_level_index, spec_decode_level_index, spec_entries_valid, LevelIndexEntry,
};
use vstd::prelude::*;
use vstd::slice::{slice_index_get, slice_subrange, slice_to_vec};

verus! {

/// One mip level's dimension at mip scale `level`: the level-0 dimension
/// halved `level` times, never below 1.
pub open spec fn spec_mip_dim(d: u32, level: u32) -> u32 {
    if level >= 32 {
        1u32
    } else if d >> level == 0 {
        1u32
    } else {
        d >> level
    }
}

/// Computes `spec_mip_dim` at run time.
pub fn mip_dim(d: u32, level: u32) -> (r: u32)
    ensures
        r == spec_mip_dim(d, level),
{
    if level >= 32 {
        1
    } else {
        let s: u32 = d >> level;
        if s == 0 {
            1
        } else {
            s
        }
    }
}

/// The exact byte size of an uncompressed level at mip scale `level`:
/// width × height × bytes-per-texel, each dimension at its mip scale.
pub open spec fn spec_level_size(width: u32, height: u32, bpt: u8, level: u32) -> int {
    spec_mip_dim(width, level) * spec_mip_dim(height, level) * bpt
}

/// A non-negative size squeezed into a u64 for an error report, saturating
/// at `u64::MAX`.
pub open spec fn spec_sat_u64(x: int) -> u64 {
    if x > u64::MAX {
        u64::MAX
    } else if x < 0 {
        0u64
    } else {
        x as u64
    }
}

/// The raw bytes of one mip level, tagged by how they are wrapped.
///
/// A payload under an unsupported supercompression scheme is carried as-is
/// rather than rejected, so callers that only need metadata are not blocked.
#[derive(Clone, Debug, PartialEq, Eq)]
pub enum LevelPayload {
    /// Plain texel bytes, no container-level compression.
    Uncompressed(Vec<u8>),
    /// Bytes wrapped in a supercompression scheme this codec does not
    /// decode; they are opaque to the codec.
    Supercompressed { scheme: u32, data: Vec<u8> },
}

/// The mathematical shape of a `LevelPayload`.
pub enum PayloadV {
    /// Plain texel bytes.
    Uncompressed(Seq<u8>),
    /// Opaque supercompressed bytes.
    Supercompressed { scheme: u32, data: Seq<u8> },
}

impl View for LevelPayload {
    type V = PayloadV;

    open spec fn view(&self) -> PayloadV {
        match *self {
            LevelPayload::Uncompressed(ref d) => PayloadV::Uncompressed(d@),
            LevelPayload::Supercompressed { scheme, ref data } => PayloadV::Supercompressed {
                scheme,
                data: data@,
            },
        }
    }
}

impl LevelPayload {
    /// Hands out the texel bytes of an uncompressed level; a level under an
    /// unsupported scheme yields `UnsupportedScheme` instead of raw bytes
    /// that are not texels.
    pub fn uncompressed_data(&self) -> (r: Result<&Vec<u8>, FormatError>)
        ensures
            match *self {
                LevelPayload::Uncompressed(ref d) => r matches Ok(p) && p@ == d@,
                LevelPayload::Supercompressed { scheme, .. } => r == Err::<&Vec<u8>, _>(
                    FormatError::UnsupportedScheme { scheme },
                ),
            },
    {
        match self {
            LevelPayload::Uncompressed(d) => Ok(d),
            LevelPayload::Supercompressed { scheme, .. } => Err(
                FormatError::UnsupportedScheme { scheme: *scheme },
            ),
        }
    }
}

/// What `decode` returns: the texture's dimensions, format tag, and each
/// level's index record beside its sliced payload, in level order.
#[derive(Clone, Debug, PartialEq, Eq)]
pub struct TextureDescriptor {
    /// Width of the level-0 image in pixels.
    pub width: u32,
    /// Height of the level-0 image in pixels, with 0 normalized to 1.
    pub height: u32,
    /// The header's pixel-format tag.
    pub format: u32,
    /// The header's declared level count.
    pub level_count: u32,
    /// Each level's index record and payload, level 0 first.
    pub levels: Vec<(LevelIndexEntry, LevelPayload)>,
}

/// The mathematical shape of a `TextureDescriptor`.
pub struct TextureV {
    /// Width of the level-0 image in pixels.
    pub width: u32,
    /// Height of the level-0 image in pixels, with 0 normalized to 1.
    pub height: u32,
    /// The header's pixel-format tag.
    pub format: u32,
    /// The header's declared level count.
    pub level_count: u32,
    /// Each level's index record and payload, level 0 first.
    pub levels: Seq<(LevelIndexEntry, PayloadV)>,
}

impl View for TextureDescriptor {
    type V = TextureV;

    open spec fn view(&self) -> TextureV {
        TextureV {
            width: self.width,
            height: self.height,
            format: self.format,
            level_count: self.level_count,
            levels: Seq::new(self.levels@.len(), |i: int| (self.levels@[i].0, self.levels@[i].1@)),
        }
    }
}

/// Why one already-located level is rejected by the reader: `None` when it
/// passes.
///
/// A level whose index reports data while its sliced region would be empty
/// is a corrupt index; an uncompressed level whose stored length disagrees
/// with width × height × bytesPerTexel at its mip scale is a size mismatch.
pub open spec fn spec_level_error(
    e: LevelIndexEntry,
    width: u32,
    height: u32,
    bpt: u8,
    scheme: u32,
    level: u32,
) -> Option<FormatError> {
    if e.byte_length == 0 && e.uncompressed_byte_length != 0 {
        Some(FormatError::CorruptIndex { level })
    } else if scheme == 0 && e.byte_length != spec_level_size(width, height, bpt, level) {
        Some(
            FormatError::SizeMismatch {
                level,
                expected: spec_sat_u64(spec_level_size(width, height, bpt, level)),
                actual: e.byte_length,
            },
        )
    } else {
        None
    }
}

/// One level as the reader returns it: its record beside the payload sliced
/// from the buffer, tagged by the container's supercompression scheme.
pub open spec fn spec_level_item(s: Seq<u8>, e: LevelIndexEntry, scheme: u32) -> (
    LevelIndexEntry,
    PayloadV,
) {
    let data = s.subrange(e.byte_offset as int, e.byte_offset + e.byte_length);
    if scheme == 0 {
        (e, PayloadV::Uncompressed(data))
    } else {
        (e, PayloadV::Supercompressed { scheme, data })
    }
}

/// The levels from `i` on, each validated and sliced, or the error of the
/// first level that fails.
pub open spec fn spec_read_levels(
    s: Seq<u8>,
    entries: Seq<LevelIndexEntry>,
    width: u32,
    height: u32,
    bpt: u8,
    scheme: u32,
    i: int,
) -> Result<Seq<(LevelIndexEntry, PayloadV)>, FormatError>
    recommends
        0 <= i,
        spec_entries_valid(s.len() as int, entries, scheme),
    decreases entries.len() - i,
{
    if i >= entries.len() {
        Ok(Seq::empty())
    } else {
        let e = entries[i];
        match spec_level_error(e, width, height, bpt, scheme, i as u32) {
            Some(err) => Err(err),
            None => match spec_read_levels(s, entries, width, height, bpt, scheme, i + 1) {
                Ok(rest) => Ok(seq![spec_level_item(s, e, scheme)] + rest),
                Err(err) => Err(err),
            },
        }
    }
}

/// When every level from `i` on passes, `spec_read_levels` returns them all,
/// in order.
proof fn lemma_levels_all_ok(
    s: Seq<u8>,
    entries: Seq<LevelIndexEntry>,
    width: u32,
    height: u32,
    bpt: u8,
    scheme: u32,
    i: int,
)
    requires
        0 <= i <= entries.len(),
        forall|j: int|
            i <= j < entries.len() ==> spec_level_error(
                #[trigger] entries[j],
                width,
                height,
                bpt,
                scheme,
                j as u32,
            ) is None,
    ensures
        spec_read_levels(s, entries, width, height, bpt, scheme, i) == Ok::<_, FormatError>(
            Seq::new((entries.len() - i) as nat, |k: int| spec_level_item(s, entries[i + k], scheme)),
        ),
    decreases entries.len() - i,
{
    let want = Seq::new(
        (entries.len() - i) as nat,
        |k: int| spec_level_item(s, entries[i + k], scheme),
    );
    if i >= entries.len() {
        assert(want =~= Seq::empty());
    } else {
        lemma_levels_all_ok(s, entries, width, height, bpt, scheme, i + 1);
        let rest = Seq::new(
            (entries.len() - i - 1) as nat,
            |k: int| spec_level_item(s, entries[i + 1 + k], scheme),
        );
        assert(want =~= seq![spec_level_item(s, entries[i], scheme)] + rest);
    }
}

/// When the levels before `bad` pass and level `bad` fails,
/// `spec_read_levels` reports level `bad`'s error.
proof fn lemma_levels_first_err(
    s: Seq<u8>,
    entries: Seq<LevelIndexEntry>,
    width: u32,
    height: u32,
    bpt: u8,
    scheme: u32,
    i: int,
    bad: int,
    err: FormatError,
)
    requires
        0 <= i <= bad < entries.len(),
        forall|j: int|
            i <= j < bad ==> spec_level_error(
                #[trigger] entries[j],
                width,
                height,
                bpt,
                scheme,
                j as u32,
            ) is None,
        spec_level_error(entries[bad], width, height, bpt, scheme, bad as u32) == Some(err),
    ensures
        spec_read_levels(s, entries, width, height, bpt, scheme, i) == Err::<
            Seq<(LevelIndexEntry, PayloadV)>,
            _,
        >(err),
    decreases bad - i,
{
    if i < bad {
        lemma_levels_first_err(s, entries, width, height, bpt, scheme, i + 1, bad, err);
    }
}

/// What `decode` returns for a buffer.
///
/// The pipeline: magic and header length, then the DFD's declared location
/// (it must start after the fixed header, lie inside the buffer, and be at
/// least one basic block long), then the level index at the first 4-byte
/// boundary after the DFD, then each level validated and sliced.  The
/// texel size used for validation is the DFD's first bytes-plane entry.
pub open spec fn spec_decode(s: Seq<u8>) -> Result<TextureV, FormatError> {
    match spec_decode_header(s) {
        Err(e) => Err(e),
        Ok(h) => {
            let height: u32 = if h.pixel_height == 0 {
                1u32
            } else {
                h.pixel_height
            };
            if h.dfd_byte_offset < PREAMBLE_LEN || h.dfd_byte_offset + h.dfd_byte_length
                > s.len() {
                Err(
                    FormatError::OffsetOutOfRange {
                        offset: h.dfd_byte_offset as u64,
                        length: h.dfd_byte_length as u64,
                        buffer_len: s.len() as u64,
                    },
                )
            } else if h.dfd_byte_length < DFD_LEN {
                Err(
                    FormatError::Truncated {
                        needed: DFD_LEN as u64,
                        actual: h.dfd_byte_length as u64,
                    },
                )
            } else {
                let bpt = s[h.dfd_byte_offset + DFD_BYTES_PLANE0_OFFSET];
                match spec_decode_level_index(
                    s,
                    h.dfd_byte_offset,
                    h.dfd_byte_length,
                    h.level_count,
                    h.supercompression_scheme,
                ) {
                    Err(e) => Err(e),
                    Ok(entries) => match spec_read_levels(
                        s,
                        entries,
                        h.pixel_width,
                        height,
                        bpt,
                        h.supercompression_scheme,
                        0,
                    ) {
                        Err(e) => Err(e),
                        Ok(levels) => Ok(
                            TextureV {
                                width: h.pixel_width,
                                height,
                                format: h.vk_format,
                                level_count: h.level_count,
                                levels,
                            },
                        ),
                    },
                }
            }
        },
    }
}

/// Decodes a container buffer into a texture description.
///
/// Succeeds exactly when the buffer opens with the magic identifier, holds
/// the full fixed header, declares a DFD inside the buffer and after the
/// header, and every indexed level lies inside the buffer with sizes that
/// agree with the header and DFD.  On success the returned descriptor holds
/// each level's payload bytes, sliced at the exact declared offsets.
pub fn decode(bytes: &[u8]) -> (r: Result<TextureDescriptor, FormatError>)
    ensures
        match r {
            Ok(d) => spec_decode(bytes@) == Ok::<_, FormatError>(d@),
            Err(e) => spec_decode(bytes@) == Err::<TextureV, _>(e),
        },
{
    proof {
        vstd::slice::axiom_spec_len(bytes);
    }
    let len_u64: u64 = bytes.len() as u64;
    let h = match decode_header(bytes) {
        Ok(h) => h,
        Err(e) => {
            return Err(e);
        },
    };
    let height: u32 = if h.pixel_height == 0 {
        1
    } else {
        h.pixel_height
    };
    if h.dfd_byte_offset < PREAMBLE_LEN as u32 || h.dfd_byte_offset as u64
        + h.dfd_byte_length as u64 > len_u64 {
        return Err(
            FormatError::OffsetOutOfRange {
                offset: h.dfd_byte_offset as u64,
                length: h.dfd_byte_length as u64,
                buffer_len: len_u64,
            },
        );
    }
    if h.dfd_byte_length < DFD_LEN as u32 {
        return Err(
            FormatError::Truncated { needed: DFD_LEN as u64, actual: h.dfd_byte_length as u64 },
        );
    }
    let bpt: u8 = *slice_index_get(bytes, h.dfd_byte_offset as usize + DFD_BYTES_PLANE0_OFFSET);
    let entries = match decode_level_index(
        bytes,
        h.dfd_byte_offset,
        h.dfd_byte_length,
        h.level_count,
        h.supercompression_scheme,
    ) {
        Ok(v) => v,
        Err(e) => {
            return Err(e);
        },
    };
    let scheme: u32 = h.supercompression_scheme;
    let width: u32 = h.pixel_width;
    let mut levels: Vec<(LevelIndexEntry, LevelPayload)> = Vec::new();
    let n: usize = entries.len();
    let mut i: usize = 0;
    while i < n
        invariant
            0 <= i <= n,
            n == entries@.len(),
            n == h.level_count,
            bytes@.len() == len_u64,
            len_u64 <= usize::MAX as u64,
            spec_decode_header(bytes@) == Ok::<_, FormatError>(h),
            height == (if h.pixel_height == 0 {
                1u32
            } else {
                h.pixel_height
            }),
            width == h.pixel_width,
            scheme == h.supercompression_scheme,
            h.dfd_byte_offset >= PREAMBLE_LEN,
            h.dfd_byte_offset + h.dfd_byte_length <= bytes@.len(),
            h.dfd_byte_length >= DFD_LEN,
            bpt == bytes@[h.dfd_byte_offset + DFD_BYTES_PLANE0_OFFSET],
            spec_decode_level_index(
                bytes@,
                h.dfd_byte_offset,
                h.dfd_byte_length,
                h.level_count,
                h.supercompression_scheme,
            ) == Ok::<_, FormatError>(entries@),
            spec_entries_valid(bytes@.len() as int, entries@, scheme),
            levels@.len() == i,
            forall|j: int|
                0 <= j < i ==> #[trigger] levels@[j].0 == entries@[j] && levels@[j].1@
                    == spec_level_item(bytes@, entries@[j], scheme).1,
            forall|j: int|
                0 <= j < i ==> spec_level_error(
                    #[trigger] entries@[j],
                    width,
                    height,
                    bpt,
                    scheme,
                    j as u32,
                ) is None,
        decreases n - i,
    {
        let e = *vstd::slice::slice_index_get(entries.as_slice(), i);
        let level: u32 = i as u32;
        if e.byte_length == 0 && e.uncompressed_byte_length != 0 {
            let err = FormatError::CorruptIndex { level };
            proof {
                lemma_levels_first_err(
                    bytes@,
                    entries@,
                    width,
                    height,
                    bpt,
                    scheme,
                    0,
                    i as int,
                    err,
                );
            }
            return Err(err);
        }
        if scheme == 0 {
            let wi: u32 = mip_dim(width, level);
            let hi: u32 = mip_dim(height, level);
            proof {
                vstd::arithmetic::mul::lemma_mul_upper_bound(
                    wi as int,
                    u32::MAX as int,
                    hi as int,
                    u32::MAX as int,
                );
                vstd::arithmetic::mul::lemma_mul_upper_bound(
                    (wi as int) * (hi as int),
                    (u32::MAX as int) * (u32::MAX as int),
                    bpt as int,
                    u8::MAX as int,
                );
            }
            let size: u128 = (wi as u128) * (hi as u128) * (bpt as u128);
            if (e.byte_length as u128) != size {
                let expected: u64 = if size > u64::MAX as u128 {
                    u64::MAX
                } else {
                    size as u64
                };
                let err = FormatError::SizeMismatch { level, expected, actual: e.byte_length };
                proof {
                    lemma_levels_first_err(
                        bytes@,
                        entries@,
                        width,
                        height,
                        bpt,
                        scheme,
                        0,
                        i as int,
                        err,
                    );
                }
                return Err(err);
            }
        }
        proof {
            assert(entries@[i as int].byte_offset + entries@[i as int].byte_length <= len_u64);
        }
        let start: usize = e.byte_offset as usize;
        let end: usize = (e.byte_offset + e.byte_length) as usize;
        let data: Vec<u8> = slice_to_vec(slice_subrange(bytes, start, end));
        proof {
            assert(data@ == bytes@.subrange(
                e.byte_offset as int,
                e.byte_offset + e.byte_length,
            ));
        }
        let payload = if scheme == 0 {
            LevelPayload::Uncompressed(data)
        } else {
            LevelPayload::Supercompressed { scheme, data }
        };
        levels.push((e, payload));
        proof {
            assert(levels@[i as int].1@ == spec_level_item(bytes@, entries@[i as int], scheme).1);
        }
        i = i + 1;
    }
    let d = TextureDescriptor { width, height, format: h.vk_format, level_count: h.level_count, levels };
    proof {
        lemma_levels_all_ok(bytes@, entries@, width, height, bpt, scheme, 0);
        let w = spec_read_levels(bytes@, entries@, width, height, bpt, scheme, 0)->Ok_0;
        assert forall|k: int| 0 <= k < n implies w[k] == d@.levels[k] by {
            assert(w[k] == spec_level_item(bytes@, entries@[0 + k], scheme));
            assert(d@.levels[k] == (d.levels@[k].0, d.levels@[k].1@));
        }
        assert(w =~= d@.levels);
    }
    Ok(d)
}

} // verus!
