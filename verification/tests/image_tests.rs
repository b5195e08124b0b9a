use sha2::Digest;

use espflashtool::image::{parse_image, EspImage, EspImageHeader, EspImageSegment};
use espflashtool::{Error, FormatError};

fn sample_header() -> EspImageHeader {
    EspImageHeader {
        segment_count: 0x6,
        spi_mode: 0x0,
        spi_speed_size: 0x0,
        entry_addr: 0x40081cf0,
        wp_pin: 0xee,
        spi_pin_drv: [0; 3],
        chip_id: 0x0,
        min_chip_rev: 0x0,
        reserved: [0; 8],
        hash_appended: 0x1,
    }
}

#[test]
fn test_write_segment() {
    let data = EspImageSegment {
        load_addr: 0xAABBCCDD,
        data: vec![0, 1, 2, 3, 4],
    }
    .to_bytes();
    assert_eq!(&data, b"\xDD\xCC\xBB\xAA\x05\x00\x00\x00\x00\x01\x02\x03\x04");
}

#[test]
fn test_header() {
    let data = sample_header().to_bytes();
    assert_eq!(
        &data,
        b"\xe9\x06\x00\x00\xF0\x1C\x08\x40\xEE\x00\x00\x00\x00\x00\x00\x00\x00\x00\x00\x00\x00\x00\x00\x01"
    );
}

#[test]
fn test_image_checksum() {
    let image = EspImage {
        header: sample_header(),
        segments: vec![
            EspImageSegment { load_addr: 0, data: vec![0x01, 0x02] },
            EspImageSegment { load_addr: 4, data: vec![0x04] },
        ],
        checksum: 0,
        hash: None,
    };
    assert_eq!(image.compute_checksum(), 0xEF ^ 0x01 ^ 0x02 ^ 0x04);
}

#[test]
fn test_image_layout_and_metadata() {
    let mut image = EspImage {
        header: sample_header(),
        segments: vec![EspImageSegment { load_addr: 0x40080000, data: vec![9, 8, 7, 6] }],
        checksum: 0,
        hash: None,
    };
    image.update_metadata();
    assert_eq!(image.header.segment_count, 1);
    assert_eq!(image.header.hash_appended, 1);
    assert_eq!(image.checksum, 0xEF ^ 9 ^ 8 ^ 7 ^ 6);

    let bytes = image.to_bytes();
    // Header 24 bytes, one segment of 8 + 4 bytes, zero padding out to
    // offset 15 mod 16, the checksum byte, then the 32-byte hash.
    let prefix_len = 24 + 8 + 4;
    let padded = (prefix_len / 16 + 1) * 16;
    assert_eq!(bytes.len(), padded + 32);
    assert_eq!(bytes[padded - 1], image.checksum);
    assert!(bytes[prefix_len..padded - 1].iter().all(|&b| b == 0));

    // The appended hash is the SHA-256 of everything before it.
    let digest = sha2::Sha256::digest(&bytes[..padded]);
    assert_eq!(&bytes[padded..], digest.as_slice());
    assert_eq!(image.hash.unwrap().as_slice(), digest.as_slice());
}

#[test]
fn test_image_parse_round_trip() {
    let mut image = EspImage {
        header: sample_header(),
        segments: vec![
            EspImageSegment { load_addr: 0x40080000, data: vec![9, 8, 7, 6, 5] },
            EspImageSegment { load_addr: 0x3FFE0000, data: vec![1, 2] },
        ],
        checksum: 0,
        hash: None,
    };
    image.update_metadata();
    let parsed = parse_image(&image.to_bytes()).unwrap();
    assert_eq!(parsed, image);
}

#[test]
fn test_image_parse_rejects_bad_magic() {
    assert_eq!(
        parse_image(&[0u8; 40]),
        Err(Error::Format(FormatError::InvalidImage))
    );
}
