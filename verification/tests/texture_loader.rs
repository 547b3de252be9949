//! Tests of the texture loader, including its behaviour on malformed input.

use texkit::error::FormatError;
use texkit::texture::TextureLoader;
use texkit::writer::encode;

#[test]
fn test_texture_loader_creation() {
    let loader = TextureLoader::new();
    assert!(loader.image_data.is_none());
    assert!(loader.dimensions.is_none());
}

#[test]
fn default_is_empty() {
    let loader = TextureLoader::default();
    assert!(loader.image_data.is_none());
    assert!(loader.dimensions.is_none());
    assert_eq!(loader.dimensions(), None);
    assert!(loader.data().is_none());
}

#[test]
fn loads_rgba8_container() {
    let payload: Vec<u8> = (0..2 * 2 * 4).map(|i| i as u8).collect();
    let buf = encode(2, 2, 4, &payload).unwrap();
    let mut loader = TextureLoader::new();
    loader.load_from_ktx2_bytes(&buf).expect("valid RGBA8 container");
    assert_eq!(loader.dimensions(), Some((2, 2)));
    assert_eq!(loader.data(), Some(payload.as_slice()));
}

#[test]
fn rejects_bad_magic_and_stays_empty() {
    let mut loader = TextureLoader::new();
    let junk = vec![0u8; 200];
    assert_eq!(loader.load_from_ktx2_bytes(&junk), Err(FormatError::BadMagic));
    assert_eq!(loader.dimensions(), None);
    assert!(loader.data().is_none());
}

#[test]
fn rejects_non_rgba8_texel_size() {
    // A valid container with two bytes per texel is not RGBA8.
    let payload = [0u8; 2 * 3 * 2];
    let buf = encode(2, 3, 2, &payload).unwrap();
    let mut loader = TextureLoader::new();
    assert_eq!(
        loader.load_from_ktx2_bytes(&buf),
        Err(FormatError::SizeMismatch { level: 0, expected: 24, actual: 12 })
    );
    assert_eq!(loader.dimensions(), None);
}

#[test]
fn rejects_supercompressed_level() {
    let payload = [0u8; 16];
    let mut buf = encode(2, 2, 4, &payload).unwrap();
    buf[44..48].copy_from_slice(&7u32.to_le_bytes());
    let mut loader = TextureLoader::new();
    assert_eq!(
        loader.load_from_ktx2_bytes(&buf),
        Err(FormatError::UnsupportedScheme { scheme: 7 })
    );
}

#[test]
fn keeps_previous_image_on_error() {
    let payload = [0x42u8; 4];
    let buf = encode(1, 1, 4, &payload).unwrap();
    let mut loader = TextureLoader::new();
    loader.load_from_ktx2_bytes(&buf).unwrap();
    let junk = vec![0u8; 50];
    assert!(loader.load_from_ktx2_bytes(&junk).is_err());
    assert_eq!(loader.dimensions(), Some((1, 1)));
    assert_eq!(loader.data(), Some(&payload[..]));
}
