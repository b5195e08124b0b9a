use espflashtool::slip::{decode, encode, DecodeResult};

#[test]
fn test_slip_encode_plain() {
    assert_eq!(encode(&[1, 2, 3]), vec![0xC0, 1, 2, 3, 0xC0]);
}

#[test]
fn test_slip_encode_escapes() {
    assert_eq!(
        encode(&[0xC0, 0x01, 0xDB]),
        vec![0xC0, 0xDB, 0xDC, 0x01, 0xDB, 0xDD, 0xC0]
    );
}

#[test]
fn test_slip_encode_empty() {
    assert_eq!(encode(&[]), vec![0xC0, 0xC0]);
}

#[test]
fn test_slip_round_trip() {
    let payloads: Vec<Vec<u8>> = vec![
        vec![],
        vec![0x00],
        vec![0xC0],
        vec![0xDB],
        vec![0xC0, 0xDB, 0xC0, 0xDB],
        (0u8..=255).collect(),
    ];
    for p in payloads {
        let frame = encode(&p);
        match decode(&frame) {
            DecodeResult::Frame(decoded, consumed) => {
                assert_eq!(decoded, p);
                assert_eq!(consumed, frame.len());
            }
            other => panic!("expected a frame, got {:?}", other),
        }
    }
}

#[test]
fn test_slip_two_delimiters_empty_payload() {
    // A frame of only 0xC0 0xC0 decodes to an empty payload.
    match decode(&[0xC0, 0xC0]) {
        DecodeResult::Frame(p, consumed) => {
            assert!(p.is_empty());
            assert_eq!(consumed, 2);
        }
        other => panic!("expected an empty frame, got {:?}", other),
    }
}

#[test]
fn test_slip_need_more() {
    assert_eq!(decode(&[0xC0, 1, 2, 3]), DecodeResult::NeedMore);
    assert_eq!(decode(&[]), DecodeResult::NeedMore);
}

#[test]
fn test_slip_bad_escape() {
    assert_eq!(decode(&[0xC0, 0xDB, 0x01, 0xC0]), DecodeResult::BadEscape);
    // A dangling escape right before the closing delimiter.
    assert_eq!(decode(&[0xC0, 0xDB, 0xC0]), DecodeResult::BadEscape);
}

#[test]
fn test_slip_consumes_only_first_frame() {
    match decode(&[0xC0, 5, 0xC0, 0xC0, 6, 0xC0]) {
        DecodeResult::Frame(p, consumed) => {
            assert_eq!(p, vec![5]);
            assert_eq!(consumed, 3);
        }
        other => panic!("expected a frame, got {:?}", other),
    }
}
