//! Tests of the alignment arithmetic and of the header and index codecs as
//! standalone components.

use texkit::align::align_up;
use texkit::dfd::build_minimal_dfd;
use texkit::error::FormatError;
use texkit::header::{decode_header, encode_header, magic_bytes, ContainerHeader};
use texkit::level_index::{decode_level_index, encode_level_index, LevelIndexEntry};

#[test]
fn align_up_is_aligned_and_minimal() {
    for boundary in [4u64, 8] {
        for x in 0u64..200 {
            let r = align_up(x, boundary);
            assert_eq!(r % boundary, 0);
            assert!(r >= x);
            assert!(r - x < boundary);
        }
    }
    assert_eq!(align_up(0, 4), 0);
    assert_eq!(align_up(1, 4), 4);
    assert_eq!(align_up(120, 4), 120);
    assert_eq!(align_up(121, 8), 128);
    assert_eq!(align_up(144, 8), 144);
}

#[test]
fn magic_is_the_ktx2_identifier() {
    assert_eq!(
        magic_bytes(),
        vec![0xab, 0x4b, 0x54, 0x58, 0x20, 0x32, 0x30, 0xbb, 0x0d, 0x0a, 0x1a, 0x0a]
    );
}

fn sample_header() -> ContainerHeader {
    ContainerHeader {
        vk_format: 37,
        type_size: 1,
        pixel_width: 800,
        pixel_height: 600,
        pixel_depth: 0,
        layer_count: 1,
        face_count: 1,
        level_count: 3,
        supercompression_scheme: 0,
        dfd_byte_offset: 92,
        dfd_byte_length: 28,
    }
}

#[test]
fn header_round_trips_through_bytes() {
    let h = sample_header();
    let body = encode_header(&h);
    assert_eq!(body.len(), 80);
    let mut buf = magic_bytes();
    buf.extend_from_slice(&body);
    assert_eq!(decode_header(&buf), Ok(h));
}

#[test]
fn header_fields_sit_at_their_offsets() {
    let h = sample_header();
    let body = encode_header(&h);
    assert_eq!(u32::from_le_bytes(body[0..4].try_into().unwrap()), 37); // vkFormat
    assert_eq!(u32::from_le_bytes(body[8..12].try_into().unwrap()), 800); // pixelWidth
    assert_eq!(u32::from_le_bytes(body[12..16].try_into().unwrap()), 600); // pixelHeight
    assert_eq!(u32::from_le_bytes(body[28..32].try_into().unwrap()), 3); // levelCount
    assert_eq!(u32::from_le_bytes(body[36..40].try_into().unwrap()), 92); // dfdByteOffset
    assert!(body[44..80].iter().all(|&b| b == 0)); // reserved words
}

#[test]
fn minimal_dfd_bytes_are_exact() {
    let dfd = build_minimal_dfd(4);
    let want: [u8; 28] = [
        0, 0, 0, 0, // vendor id
        0, 0, 0, 0, // descriptor type
        2, 0, 0, 0, // version
        28, 0, 0, 0, // block size
        2, 1, // sRGB transfer, BT.709 primaries
        0, 0, // flags
        1, 1, 1, 1, // texel block dimensions
        4, 0, 0, 0, // bytes per plane
    ];
    assert_eq!(dfd.as_slice(), &want);
}

#[test]
fn level_index_round_trips_through_bytes() {
    let entries = [
        LevelIndexEntry { byte_offset: 168, byte_length: 64, uncompressed_byte_length: 64 },
        LevelIndexEntry { byte_offset: 232, byte_length: 16, uncompressed_byte_length: 16 },
    ];
    let table = encode_level_index(&entries);
    assert_eq!(table.len(), 48);
    // Place the table as a container would: DFD at 92, 28 bytes long, so the
    // table starts at 120.
    let mut buf = vec![0u8; 120];
    buf.extend_from_slice(&table);
    buf.resize(300, 0);
    let parsed = decode_level_index(&buf, 92, 28, 2, 0).unwrap();
    assert_eq!(parsed.as_slice(), &entries);
}

#[test]
fn level_index_truncation_detected() {
    let buf = vec![0u8; 130]; // table would need bytes 120..144
    assert_eq!(
        decode_level_index(&buf, 92, 28, 1, 0),
        Err(FormatError::Truncated { needed: 144, actual: 130 })
    );
}

#[test]
fn level_index_table_is_4_aligned_after_odd_dfd() {
    // A 30-byte DFD ends at 122; the table must start at 124, not 122.
    let entry = LevelIndexEntry { byte_offset: 148, byte_length: 4, uncompressed_byte_length: 4 };
    let mut buf = vec![0u8; 124];
    buf.extend_from_slice(&encode_level_index(&[entry]));
    buf.resize(152, 0);
    let parsed = decode_level_index(&buf, 92, 30, 1, 0).unwrap();
    assert_eq!(parsed.as_slice(), &[entry]);
}

#[test]
fn unequal_lengths_rejected_for_uncompressed() {
    let entry = LevelIndexEntry { byte_offset: 144, byte_length: 8, uncompressed_byte_length: 9 };
    let mut buf = vec![0u8; 120];
    buf.extend_from_slice(&encode_level_index(&[entry]));
    buf.resize(160, 0);
    assert_eq!(
        decode_level_index(&buf, 92, 28, 1, 0),
        Err(FormatError::SizeMismatch { level: 0, expected: 9, actual: 8 })
    );
    // Under a nonzero scheme the same record passes the index stage.
    assert!(decode_level_index(&buf, 92, 28, 1, 2).is_ok());
}
