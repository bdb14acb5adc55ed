use olympus_raw::olympus_metadata::{
    find_ifd_entry_value, picture_mode, picture_mode_name, read_u16_le, read_u32_le,
    CAMERA_SETTINGS_IFD, OLYMPUS_MAKERNOTE_HEADER, PICTURE_MODE,
};

#[test]
fn reads_picture_mode_from_minimal_olympus_makernote() {
    let mut bytes = OLYMPUS_MAKERNOTE_HEADER.to_vec();
    bytes.extend_from_slice(&1u16.to_le_bytes());
    bytes.extend_from_slice(&CAMERA_SETTINGS_IFD.to_le_bytes());
    bytes.extend_from_slice(&13u16.to_le_bytes());
    bytes.extend_from_slice(&1u32.to_le_bytes());
    bytes.extend_from_slice(&32u32.to_le_bytes());
    bytes.resize(32, 0);
    bytes.extend_from_slice(&1u16.to_le_bytes());
    bytes.extend_from_slice(&PICTURE_MODE.to_le_bytes());
    bytes.extend_from_slice(&3u16.to_le_bytes());
    bytes.extend_from_slice(&2u32.to_le_bytes());
    bytes.extend_from_slice(&(5u32 | (2u32 << 16)).to_le_bytes());

    assert_eq!(picture_mode(&bytes), Some(5));
    assert_eq!(picture_mode_name(256), Some("Monotone"));
}

fn ifd(entries: &[(u16, u16, u32, u32)]) -> Vec<u8> {
    let mut out = (entries.len() as u16).to_le_bytes().to_vec();
    for (tag, kind, count, value) in entries {
        out.extend_from_slice(&tag.to_le_bytes());
        out.extend_from_slice(&kind.to_le_bytes());
        out.extend_from_slice(&count.to_le_bytes());
        out.extend_from_slice(&value.to_le_bytes());
    }
    out
}

/// A MakerNote whose CameraSettings IFD follows the root IFD directly.
fn makernote(before: &[u8], raw_mode: u32) -> Vec<u8> {
    let root = ifd(&[(0x0100, 4, 1, 7), (CAMERA_SETTINGS_IFD, 13, 1, 12 + 2 + 24)]);
    let camera = ifd(&[(0x0101, 3, 1, 9), (PICTURE_MODE, 3, 2, raw_mode)]);
    let mut bytes = before.to_vec();
    bytes.extend_from_slice(&OLYMPUS_MAKERNOTE_HEADER);
    bytes.extend_from_slice(&root);
    bytes.extend_from_slice(&camera);
    bytes
}

#[test]
fn reads_little_endian_u16() {
    assert_eq!(read_u16_le(&[0x34, 0x12, 0xff], 0), Some(0x1234));
    assert_eq!(read_u16_le(&[0x34, 0x12, 0xff], 1), Some(0xff12));
    assert_eq!(read_u16_le(&[0x34, 0x12, 0xff], 2), None);
    assert_eq!(read_u16_le(&[], 0), None);
    assert_eq!(read_u16_le(&[1, 2], usize::MAX), None);
    assert_eq!(read_u16_le(&[1, 2], usize::MAX - 1), None);
}

#[test]
fn reads_little_endian_u32() {
    assert_eq!(read_u32_le(&[0x78, 0x56, 0x34, 0x12], 0), Some(0x1234_5678));
    assert_eq!(read_u32_le(&[0, 0x78, 0x56, 0x34, 0x12], 1), Some(0x1234_5678));
    assert_eq!(read_u32_le(&[0x78, 0x56, 0x34], 0), None);
    assert_eq!(read_u32_le(&[1, 2, 3, 4], usize::MAX - 2), None);
}

#[test]
fn reads_back_written_integers() {
    let mut bytes = vec![9u8, 9];
    bytes.extend_from_slice(&0xbeefu16.to_le_bytes());
    bytes.extend_from_slice(&0xdead_beefu32.to_le_bytes());
    bytes.push(1);
    assert_eq!(read_u16_le(&bytes, 2), Some(0xbeef));
    assert_eq!(read_u32_le(&bytes, 4), Some(0xdead_beef));
}

#[test]
fn ifd_lookup_returns_first_matching_entry() {
    let mut bytes = vec![0xaa, 0xbb, 0xcc];
    bytes.extend_from_slice(&ifd(&[(1, 3, 1, 10), (2, 3, 1, 20), (2, 3, 1, 30)]));
    bytes.extend_from_slice(&[5, 5]);
    assert_eq!(find_ifd_entry_value(&bytes, 3, 1), Some(10));
    assert_eq!(find_ifd_entry_value(&bytes, 3, 2), Some(20));
    assert_eq!(find_ifd_entry_value(&bytes, 3, 3), None);
}

#[test]
fn ifd_lookup_stops_at_truncated_entries() {
    let full = ifd(&[(1, 3, 1, 10), (2, 3, 1, 20)]);
    // the second entry's value is cut off
    let cut = &full[..full.len() - 2];
    assert_eq!(find_ifd_entry_value(cut, 0, 1), Some(10));
    assert_eq!(find_ifd_entry_value(cut, 0, 2), None);
    // the second entry's tag is cut off
    assert_eq!(find_ifd_entry_value(&full[..15], 0, 2), None);
    // the count itself is missing
    assert_eq!(find_ifd_entry_value(&full[..1], 0, 1), None);
    assert_eq!(find_ifd_entry_value(&full, full.len(), 1), None);
}

#[test]
fn ifd_lookup_with_empty_directory() {
    assert_eq!(find_ifd_entry_value(&[0, 0, 1, 0, 0, 0], 0, 1), None);
}

#[test]
fn picture_mode_without_makernote() {
    assert_eq!(picture_mode(&[]), None);
    assert_eq!(picture_mode(b"OLYMPUS\0II\x03"), None);
    let mut not_quite = makernote(&[], 3);
    not_quite[7] = b'!';
    assert_eq!(picture_mode(&not_quite), None);
}

#[test]
fn picture_mode_keeps_low_sixteen_bits() {
    assert_eq!(picture_mode(&makernote(&[], 0x0003_0100)), Some(256));
    assert_eq!(picture_mode(&makernote(&[], 0xffff_0200)), Some(512));
}

#[test]
fn picture_mode_offsets_are_relative_to_signature() {
    let plain = makernote(&[], 4);
    let shifted = makernote(&[0u8; 37], 4);
    assert_eq!(picture_mode(&plain), Some(4));
    assert_eq!(picture_mode(&shifted), Some(4));
}

#[test]
fn picture_mode_survives_appended_bytes() {
    let mut bytes = makernote(b"header", 2);
    assert_eq!(picture_mode(&bytes), Some(2));
    bytes.extend_from_slice(&OLYMPUS_MAKERNOTE_HEADER);
    bytes.extend_from_slice(&[0xff; 40]);
    assert_eq!(picture_mode(&bytes), Some(2));
}

#[test]
fn picture_mode_uses_first_signature() {
    // an earlier signature whose root IFD is empty hides the later one
    let mut bytes = OLYMPUS_MAKERNOTE_HEADER.to_vec();
    bytes.extend_from_slice(&ifd(&[]));
    bytes.extend_from_slice(&makernote(&[], 6));
    assert_eq!(picture_mode(&bytes), None);
}

#[test]
fn picture_mode_missing_tags() {
    let root = ifd(&[(0x0100, 4, 1, 7)]);
    let mut bytes = OLYMPUS_MAKERNOTE_HEADER.to_vec();
    bytes.extend_from_slice(&root);
    assert_eq!(picture_mode(&bytes), None);

    let root = ifd(&[(CAMERA_SETTINGS_IFD, 13, 1, 12 + 14)]);
    let camera = ifd(&[(0x0101, 3, 1, 9)]);
    let mut bytes = OLYMPUS_MAKERNOTE_HEADER.to_vec();
    bytes.extend_from_slice(&root);
    bytes.extend_from_slice(&camera);
    assert_eq!(picture_mode(&bytes), None);

    // camera settings offset pointing past the end of the file
    let root = ifd(&[(CAMERA_SETTINGS_IFD, 13, 1, 0xffff_fff0)]);
    let mut bytes = OLYMPUS_MAKERNOTE_HEADER.to_vec();
    bytes.extend_from_slice(&root);
    assert_eq!(picture_mode(&bytes), None);
}

#[test]
fn names_every_known_picture_mode() {
    let expected: [(u16, &str); 18] = [
        (1, "Vivid"),
        (2, "Natural"),
        (3, "Muted"),
        (4, "Portrait"),
        (5, "i-Enhance"),
        (6, "e-Portrait"),
        (7, "Color Creator"),
        (8, "Underwater"),
        (9, "Color Profile 1"),
        (10, "Color Profile 2"),
        (11, "Color Profile 3"),
        (12, "Monochrome Profile 1"),
        (13, "Monochrome Profile 2"),
        (14, "Monochrome Profile 3"),
        (17, "Art Mode"),
        (18, "Monochrome Profile 4"),
        (256, "Monotone"),
        (512, "Sepia"),
    ];
    for (mode, name) in expected {
        assert_eq!(picture_mode_name(mode), Some(name));
    }
    for mode in [0u16, 15, 16, 19, 255, 257, 511, 513, u16::MAX] {
        assert_eq!(picture_mode_name(mode), None);
    }
}
