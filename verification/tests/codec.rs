//! End-to-end tests of the container codec: round trips, rejection of
//! malformed buffers, and byte-exact layout checks.

use texkit::error::FormatError;
use texkit::reader::{decode, LevelPayload};
use texkit::writer::encode;

/// The magic identifier as raw bytes.
const MAGIC: [u8; 12] = [
    0xab, 0x4b, 0x54, 0x58, 0x20, 0x32, 0x30, 0xbb, 0x0d, 0x0a, 0x1a, 0x0a,
];

/// A deterministic pseudo-random payload, so failures reproduce.
fn pseudo_random_payload(len: usize, seed: u64) -> Vec<u8> {
    let mut state: u64 = seed.wrapping_mul(6364136223846793005).wrapping_add(1442695040888963407);
    let mut out = Vec::with_capacity(len);
    for _ in 0..len {
        state = state.wrapping_mul(6364136223846793005).wrapping_add(1442695040888963407);
        out.push((state >> 33) as u8);
    }
    out
}

fn encode_rgba8(width: u32, height: u32, payload: &[u8]) -> Vec<u8> {
    encode(width, height, 4, payload).expect("payload length matches dimensions")
}

#[test]
fn round_trip_small_sizes() {
    let sizes = [(1u32, 1u32), (1, 7), (3, 2), (16, 16), (640, 480), (4096, 1), (1, 4096)];
    for (k, &(w, h)) in sizes.iter().enumerate() {
        let payload = pseudo_random_payload((w * h * 4) as usize, k as u64 + 1);
        let buf = encode_rgba8(w, h, &payload);
        let d = decode(&buf).expect("writer output must decode");
        assert_eq!(d.width, w);
        assert_eq!(d.height, h);
        assert_eq!(d.level_count, 1);
        assert_eq!(d.levels.len(), 1);
        match &d.levels[0].1 {
            LevelPayload::Uncompressed(data) => assert_eq!(data, &payload),
            LevelPayload::Supercompressed { .. } => panic!("writer emits no supercompression"),
        }
    }
}

#[test]
fn round_trip_4096_square() {
    let w = 4096u32;
    let h = 4096u32;
    let payload = pseudo_random_payload((w as usize) * (h as usize) * 4, 99);
    let buf = encode_rgba8(w, h, &payload);
    let d = decode(&buf).expect("writer output must decode");
    assert_eq!((d.width, d.height), (w, h));
    match &d.levels[0].1 {
        LevelPayload::Uncompressed(data) => assert_eq!(data, &payload),
        LevelPayload::Supercompressed { .. } => panic!("writer emits no supercompression"),
    }
}

#[test]
fn bad_magic_rejected_regardless_of_content() {
    // A valid buffer with one identifier byte flipped.
    let payload = [0x7fu8; 4];
    let mut buf = encode_rgba8(1, 1, &payload);
    buf[0] = 0x00;
    assert_eq!(decode(&buf), Err(FormatError::BadMagic));
    // Garbage of various lengths, all >= 12 bytes of wrong identifier.
    for len in [12usize, 91, 92, 200] {
        let junk = vec![0x55u8; len];
        assert_eq!(decode(&junk), Err(FormatError::BadMagic));
    }
}

#[test]
fn truncated_buffer_rejected() {
    // Anything below 92 bytes that is a prefix of a valid container.
    let payload = [0u8; 4];
    let buf = encode_rgba8(1, 1, &payload);
    for len in [0usize, 5, 12, 13, 50, 91] {
        let short = &buf[..len];
        assert_eq!(
            decode(short),
            Err(FormatError::Truncated { needed: 92, actual: len as u64 })
        );
    }
}

#[test]
fn corrupted_byte_length_always_rejected() {
    let payload = pseudo_random_payload(2 * 3 * 4, 7);
    let buf = encode_rgba8(2, 3, &payload);
    // The level index record sits at bytes 120..144: offset, length,
    // uncompressed length, 8 bytes each, little-endian.
    for bad in [0u64, 1, 23, 25, u64::MAX] {
        let mut corrupt = buf.clone();
        corrupt[128..136].copy_from_slice(&bad.to_le_bytes());
        match decode(&corrupt) {
            Err(FormatError::SizeMismatch { .. }) | Err(FormatError::OffsetOutOfRange { .. }) => {}
            other => panic!("corrupted byteLength must be rejected, got {:?}", other),
        }
    }
}

#[test]
fn two_by_two_white_scenario() {
    let payload = [0xffu8; 16];
    let buf = encode_rgba8(2, 2, &payload);
    // The final 16 bytes are exactly the payload.
    assert_eq!(&buf[buf.len() - 16..], &payload);
    // pixelWidth and pixelHeight sit at bytes 20..24 and 24..28.
    assert_eq!(u32::from_le_bytes(buf[20..24].try_into().unwrap()), 2);
    assert_eq!(u32::from_le_bytes(buf[24..28].try_into().unwrap()), 2);
    let d = decode(&buf).expect("valid buffer");
    assert_eq!((d.width, d.height), (2, 2));
    assert_eq!(d.levels.len(), 1);
    match &d.levels[0].1 {
        LevelPayload::Uncompressed(data) => assert_eq!(data.as_slice(), &payload),
        LevelPayload::Supercompressed { .. } => panic!("uncompressed level expected"),
    }
}

#[test]
fn oversized_uncompressed_length_scenario() {
    // A hand-built buffer: header claims 3412 x 1362, but the level index
    // declares one byte more than width * height * 4.
    let w = 3412u32;
    let h = 1362u32;
    let good_len = (w as u64) * (h as u64) * 4;
    let bad_len = good_len + 1;
    let mut buf = Vec::new();
    buf.extend_from_slice(&MAGIC);
    for field in [0u32, 1, w, h, 0, 1, 1, 1, 0, 92, 28] {
        buf.extend_from_slice(&field.to_le_bytes());
    }
    buf.resize(92, 0); // reserved header words
    // Minimal DFD block.
    let mut dfd = vec![0u8; 28];
    dfd[8] = 2; // version
    dfd[12] = 28; // block size
    dfd[16] = 2; // sRGB
    dfd[17] = 1; // BT.709
    dfd[20..24].copy_from_slice(&[1, 1, 1, 1]);
    dfd[24] = 4; // bytes per texel
    buf.extend_from_slice(&dfd);
    // Level index: payload at 144, both lengths one byte too long.
    buf.extend_from_slice(&144u64.to_le_bytes());
    buf.extend_from_slice(&bad_len.to_le_bytes());
    buf.extend_from_slice(&bad_len.to_le_bytes());
    buf.resize(144 + bad_len as usize, 0xcc);
    match decode(&buf) {
        Err(FormatError::SizeMismatch { level, expected, actual }) => {
            assert_eq!(level, 0);
            assert_eq!(expected, good_len);
            assert_eq!(actual, bad_len);
        }
        other => panic!("expected SizeMismatch, got {:?}", other),
    }
}

#[test]
fn payload_size_mismatch_rejected_by_writer() {
    let payload = [0u8; 15]; // one byte short of 2 x 2 x 4
    assert_eq!(
        encode(2, 2, 4, &payload),
        Err(FormatError::SizeMismatch { level: 0, expected: 16, actual: 15 })
    );
}

#[test]
fn supercompressed_level_carried_and_tagged() {
    let payload = [0xaau8; 16];
    let mut buf = encode_rgba8(2, 2, &payload);
    // Flip the supercompression scheme field (bytes 44..48) to 1.
    buf[44..48].copy_from_slice(&1u32.to_le_bytes());
    let d = decode(&buf).expect("metadata stays readable under unknown schemes");
    match &d.levels[0].1 {
        LevelPayload::Supercompressed { scheme, data } => {
            assert_eq!(*scheme, 1);
            assert_eq!(data.as_slice(), &payload);
            assert_eq!(
                d.levels[0].1.uncompressed_data(),
                Err(FormatError::UnsupportedScheme { scheme: 1 })
            );
        }
        LevelPayload::Uncompressed(_) => panic!("scheme 1 must be tagged"),
    }
}

#[test]
fn corrupt_index_empty_slice_rejected() {
    let payload = [0xaau8; 16];
    let mut buf = encode_rgba8(2, 2, &payload);
    // Unknown scheme, so the equal-lengths rule is off; then claim a
    // zero-byte slice while uncompressedByteLength still says 16.
    buf[44..48].copy_from_slice(&1u32.to_le_bytes());
    buf[128..136].copy_from_slice(&0u64.to_le_bytes());
    assert_eq!(decode(&buf), Err(FormatError::CorruptIndex { level: 0 }));
}

#[test]
fn offset_out_of_range_rejected() {
    let payload = [0u8; 4];
    let mut buf = encode_rgba8(1, 1, &payload);
    // Point the level payload past the end of the buffer.
    let far = (buf.len() as u64) + 1;
    buf[120..128].copy_from_slice(&far.to_le_bytes());
    assert_eq!(
        decode(&buf),
        Err(FormatError::OffsetOutOfRange {
            offset: far,
            length: 4,
            buffer_len: buf.len() as u64
        })
    );
}

#[test]
fn dfd_outside_buffer_rejected() {
    let payload = [0u8; 4];
    let mut buf = encode_rgba8(1, 1, &payload);
    // Claim a DFD length that runs past the end of the buffer.
    let huge = (buf.len() as u32) + 100;
    buf[52..56].copy_from_slice(&huge.to_le_bytes());
    assert_eq!(
        decode(&buf),
        Err(FormatError::OffsetOutOfRange {
            offset: 92,
            length: huge as u64,
            buffer_len: buf.len() as u64
        })
    );
}

#[test]
fn dfd_too_short_rejected() {
    let payload = [0u8; 4];
    let mut buf = encode_rgba8(1, 1, &payload);
    // Claim a 10-byte DFD: too short for the basic block.
    buf[52..56].copy_from_slice(&10u32.to_le_bytes());
    assert_eq!(
        decode(&buf),
        Err(FormatError::Truncated { needed: 28, actual: 10 })
    );
}

#[test]
fn pixel_height_zero_normalized_to_one() {
    let payload = [0x11u8; 12]; // 3 x 1 x 4 bytes
    let mut buf = encode_rgba8(3, 1, &payload);
    // Rewrite pixelHeight (bytes 24..28) as 0: a 1D texture.
    buf[24..28].copy_from_slice(&0u32.to_le_bytes());
    let d = decode(&buf).expect("height 0 is normalized, not rejected");
    assert_eq!((d.width, d.height), (3, 1));
}

/// Builds a container with `levels` hand-made mip levels of a `w` x `h`
/// RGBA8 texture, each level's payload filled with its level number.
fn build_multi_level(w: u32, h: u32, level_sizes: &[u64]) -> Vec<u8> {
    let mut buf = Vec::new();
    buf.extend_from_slice(&MAGIC);
    for field in [0u32, 1, w, h, 0, 1, 1, level_sizes.len() as u32, 0, 92, 28] {
        buf.extend_from_slice(&field.to_le_bytes());
    }
    buf.resize(92, 0);
    let mut dfd = vec![0u8; 28];
    dfd[8] = 2;
    dfd[12] = 28;
    dfd[16] = 2;
    dfd[17] = 1;
    dfd[20..24].copy_from_slice(&[1, 1, 1, 1]);
    dfd[24] = 4;
    buf.extend_from_slice(&dfd);
    // Index at 120; payloads start at the next 8-byte boundary.
    let index_end = 120 + 24 * level_sizes.len() as u64;
    let first_offset = (index_end + 7) / 8 * 8;
    let mut offset = first_offset;
    for &len in level_sizes {
        buf.extend_from_slice(&offset.to_le_bytes());
        buf.extend_from_slice(&len.to_le_bytes());
        buf.extend_from_slice(&len.to_le_bytes());
        offset += len;
    }
    while (buf.len() as u64) < first_offset {
        buf.push(0);
    }
    for (level, &len) in level_sizes.iter().enumerate() {
        buf.extend(std::iter::repeat(level as u8).take(len as usize));
    }
    buf
}

#[test]
fn multi_level_mip_sizes_accepted() {
    // 4x4 with three mips: 4x4, 2x2, 1x1 in RGBA8.
    let buf = build_multi_level(4, 4, &[64, 16, 4]);
    let d = decode(&buf).expect("consistent mip chain");
    assert_eq!(d.level_count, 3);
    assert_eq!(d.levels.len(), 3);
    for (i, (entry, payload)) in d.levels.iter().enumerate() {
        assert_eq!(entry.byte_length, [64u64, 16, 4][i]);
        match payload {
            LevelPayload::Uncompressed(data) => {
                assert!(data.iter().all(|&b| b == i as u8));
            }
            LevelPayload::Supercompressed { .. } => panic!("scheme 0"),
        }
    }
}

#[test]
fn multi_level_wrong_mip_size_rejected() {
    // Level 1 of a 4x4 texture must be 2 * 2 * 4 = 16 bytes, not 15.
    let buf = build_multi_level(4, 4, &[64, 15, 4]);
    match decode(&buf) {
        Err(FormatError::SizeMismatch { level, expected, actual }) => {
            assert_eq!((level, expected, actual), (1, 16, 15));
        }
        other => panic!("expected SizeMismatch at level 1, got {:?}", other),
    }
}

#[test]
fn uncompressed_data_hands_out_texels() {
    let payload = [0x3cu8; 16];
    let buf = encode_rgba8(2, 2, &payload);
    let d = decode(&buf).unwrap();
    assert_eq!(d.levels[0].1.uncompressed_data().unwrap().as_slice(), &payload);
}

#[test]
fn every_error_kind_has_a_description() {
    let errors = [
        FormatError::BadMagic,
        FormatError::Truncated { needed: 92, actual: 3 },
        FormatError::OffsetOutOfRange { offset: 9, length: 9, buffer_len: 9 },
        FormatError::SizeMismatch { level: 0, expected: 16, actual: 15 },
        FormatError::CorruptIndex { level: 1 },
        FormatError::UnsupportedScheme { scheme: 2 },
    ];
    for e in errors {
        assert!(!e.describe().is_empty());
    }
    assert_eq!(
        FormatError::BadMagic.describe(),
        "first 12 bytes do not match the KTX2 identifier"
    );
}
