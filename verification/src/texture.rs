//! A small holder for decoded RGBA8 texture data.
//!
//! The loader keeps the most recently loaded image's pixels and dimensions.
//! It accepts container buffers through the verified decoder and insists on
//! plain RGBA8 level-0 data: four bytes per pixel, no supercompression.
//! Decoding image file formats such as PNG is the caller's business; a caller
//! that has the pixels already can fill the fields directly.

use crate::error::FormatError;
use crate::reader::{decode, spec_decode, spec_sat_u64, LevelPayload, PayloadV};
use vstd::prelude::*;

verus! {

/// Bytes per RGBA8 texel.
pub const RGBA8_BYTES_PER_TEXEL: u32 = 4;

/// Holds one decoded image: its raw RGBA8 bytes and its dimensions.
#[derive(Clone, Debug)]
pub struct TextureLoader {
    /// The image's texel bytes, row-major RGBA8, once an image is loaded.
    pub image_data: Option<Vec<u8>>,
    /// The image's (width, height) in pixels, once an image is loaded.
    pub dimensions: Option<(u32, u32)>,
}

/// What `load_from_ktx2_bytes` returns and leaves in the loader, as a
/// function of what the container decoder returns.
///
/// The loader succeeds exactly when the buffer decodes, indexes at least one
/// level, and level 0 is uncompressed RGBA8 data of exactly
/// width × height × 4 bytes; on any failure the loader is left unchanged.
pub open spec fn spec_load_outcome(s: Seq<u8>) -> Result<(u32, u32, Seq<u8>), FormatError> {
    match spec_decode(s) {
        Err(e) => Err(e),
        Ok(t) => {
            let expected = (t.width as int) * (t.height as int) * (RGBA8_BYTES_PER_TEXEL as int);
            if t.levels.len() == 0 {
                Err(
                    FormatError::SizeMismatch {
                        level: 0,
                        expected: spec_sat_u64(expected),
                        actual: 0,
                    },
                )
            } else {
                match t.levels[0].1 {
                    PayloadV::Supercompressed { scheme, .. } => Err(
                        FormatError::UnsupportedScheme { scheme },
                    ),
                    PayloadV::Uncompressed(data) => {
                        if data.len() == expected {
                            Ok((t.width, t.height, data))
                        } else {
                            Err(
                                FormatError::SizeMismatch {
                                    level: 0,
                                    expected: spec_sat_u64(expected),
                                    actual: data.len() as u64,
                                },
                            )
                        }
                    },
                }
            }
        },
    }
}

impl TextureLoader {
    /// A fresh loader with nothing loaded yet.
    pub fn new() -> (r: Self)
        ensures
            r.image_data is None,
            r.dimensions is None,
    {
        Self { image_data: None, dimensions: None }
    }

    /// Loads the level-0 image of a KTX2 container buffer.
    ///
    /// On success the loader holds the level's bytes and the (normalized)
    /// dimensions from the header; on any error it is left as it was.
    pub fn load_from_ktx2_bytes(&mut self, bytes: &[u8]) -> (r: Result<(), FormatError>)
        ensures
            match spec_load_outcome(bytes@) {
                Ok((w, h, data)) => {
                    &&& r is Ok
                    &&& final(self).dimensions == Some((w, h))
                    &&& final(self).image_data matches Some(v) && v@ == data
                },
                Err(e) => r == Err::<(), _>(e) && *final(self) == *old(self),
            },
    {
        let mut d = match decode(bytes) {
            Ok(d) => d,
            Err(e) => {
                return Err(e);
            },
        };
        proof {
            vstd::arithmetic::mul::lemma_mul_upper_bound(
                d.width as int,
                u32::MAX as int,
                d.height as int,
                u32::MAX as int,
            );
            vstd::arithmetic::mul::lemma_mul_upper_bound(
                (d.width as int) * (d.height as int),
                (u32::MAX as int) * (u32::MAX as int),
                RGBA8_BYTES_PER_TEXEL as int,
                RGBA8_BYTES_PER_TEXEL as int,
            );
        }
        let expected: u128 = (d.width as u128) * (d.height as u128) * (
        RGBA8_BYTES_PER_TEXEL as u128);
        let expected_u64: u64 = if expected > u64::MAX as u128 {
            u64::MAX
        } else {
            expected as u64
        };
        if d.levels.len() == 0 {
            return Err(FormatError::SizeMismatch { level: 0, expected: expected_u64, actual: 0 });
        }
        let first = d.levels.remove(0);
        proof {
            assert(first.1@ == spec_decode(bytes@)->Ok_0.levels[0].1);
        }
        match first.1 {
            LevelPayload::Supercompressed { scheme, .. } => Err(
                FormatError::UnsupportedScheme { scheme },
            ),
            LevelPayload::Uncompressed(data) => {
                if (data.len() as u128) != expected {
                    return Err(
                        FormatError::SizeMismatch {
                            level: 0,
                            expected: expected_u64,
                            actual: data.len() as u64,
                        },
                    );
                }
                self.dimensions = Some((d.width, d.height));
                self.image_data = Some(data);
                Ok(())
            },
        }
    }

    /// The dimensions of the loaded image, if one is loaded.
    pub fn dimensions(&self) -> (r: Option<(u32, u32)>)
        ensures
            r == self.dimensions,
    {
        self.dimensions
    }

    /// The raw bytes of the loaded image, if one is loaded.
    pub fn data(&self) -> (r: Option<&[u8]>)
        ensures
            match r {
                Some(s) => self.image_data matches Some(v) && s@ == v@,
                None => self.image_data is None,
            },
    {
        match &self.image_data {
            Some(v) => Some(v.as_slice()),
            None => None,
        }
    }
}

impl Default for TextureLoader {
    /// The same empty loader `new` returns.
    fn default() -> (r: Self)
        ensures
            r.image_data is None,
            r.dimensions is None,
    {
        Self::new()
    }
}

} // verus!
