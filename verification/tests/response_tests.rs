use espflashtool::command::{encode_response, parse_response};
use espflashtool::protocol::{match_response, parse_md5_response, ResponseDisposition};
use espflashtool::{CommandError, Error, ErrorExt, FormatError, ProtocolError};

#[test]
fn test_response_round_trip() {
    // Encoding then decoding a response with status 0, value 0x12345678,
    // four data bytes and a 2-byte trailer yields the same tuple.  The
    // opcode 0x20 is reserved, so the decoder takes the cached width.
    let frame = encode_response(0x20, 0x12345678, &[1, 2, 3, 4], 0, 0, false);
    let packet = parse_response(&frame, true, Some(2)).unwrap();
    assert_eq!(packet.cmd_code, 0x20);
    assert_eq!(packet.value, 0x12345678);
    assert_eq!(packet.data, vec![1, 2, 3, 4]);
    assert_eq!(packet.status, 0);
    assert_eq!(packet.error, 0);
    assert_eq!(packet.reserved, None);
}

#[test]
fn test_minimal_response_accepted() {
    // A response of exactly 10 bytes: 2-byte trailer, no data.
    let frame = encode_response(0x08, 0, &[], 0, 0, false);
    assert_eq!(frame.len(), 10);
    let packet = parse_response(&frame, true, None).unwrap();
    assert_eq!(packet.cmd_code, 0x08);
    assert!(packet.data.is_empty());
    assert_eq!(packet.status, 0);
    assert_eq!(packet.reserved, None);
}

#[test]
fn test_wide_trailer_response() {
    let frame = encode_response(0x0A, 0x6921506F, &[], 0, 0, true);
    let packet = parse_response(&frame, true, None).unwrap();
    assert_eq!(packet.value, 0x6921506F);
    assert_eq!(packet.reserved, Some([0, 0]));
}

#[test]
fn test_response_bad_direction() {
    let mut frame = encode_response(0x08, 0, &[], 0, 0, false);
    frame[0] = 0;
    assert_eq!(
        parse_response(&frame, true, None),
        Err(Error::Format(FormatError::InvalidResponseHeader))
    );
}

#[test]
fn test_response_bad_trailer_width() {
    // A known opcode whose length leaves neither 2 nor 4 trailer bytes.
    let frame = encode_response(0x08, 0, &[9], 0, 0, false);
    assert_eq!(
        parse_response(&frame, true, None),
        Err(Error::Format(FormatError::InvalidResponseHeader))
    );
}

#[test]
fn test_unknown_opcode_needs_cached_width() {
    let frame = encode_response(0x20, 0, &[], 0, 0, false);
    assert_eq!(
        parse_response(&frame, true, None),
        Err(Error::Protocol(ProtocolError::StatusWidthUnknown))
    );
    assert!(parse_response(&frame, true, Some(2)).is_ok());
}

#[test]
fn test_md5_response_expected_lengths() {
    // SpiFlashMD5 answers 32 hex digits from ROM, 16 raw bytes from the
    // stub; the trailer width is derived accordingly.
    let hex_digest: Vec<u8> = b"00112233445566778899AABBCCDDEEFF".to_vec();
    let rom_frame = encode_response(0x13, 0, &hex_digest, 0, 0, true);
    let rom_packet = parse_response(&rom_frame, true, None).unwrap();
    assert_eq!(rom_packet.data.len(), 32);

    let raw_digest: Vec<u8> = (0u8..16).collect();
    let stub_frame = encode_response(0x13, 0, &raw_digest, 0, 0, false);
    let stub_packet = parse_response(&stub_frame, false, None).unwrap();
    assert_eq!(stub_packet.data.len(), 16);
}

#[test]
fn test_md5_rom_and_stub_agree() {
    // The same digest arrives as hex from ROM and raw from the stub and
    // decodes identically.
    let raw: Vec<u8> = vec![
        0x00, 0x11, 0x22, 0x33, 0x44, 0x55, 0x66, 0x77, 0x88, 0x99, 0xAA, 0xBB, 0xCC, 0xDD,
        0xEE, 0xFF,
    ];
    let hex = b"00112233445566778899aabbccddeeff";
    let from_rom = parse_md5_response(hex, true).unwrap();
    let from_stub = parse_md5_response(&raw, false).unwrap();
    assert_eq!(from_rom, raw);
    assert_eq!(from_stub, raw);
    // Upper-case hex decodes the same.
    let upper = b"00112233445566778899AABBCCDDEEFF";
    assert_eq!(parse_md5_response(upper, true).unwrap(), raw);
}

#[test]
fn test_md5_invalid_shapes() {
    assert_eq!(
        parse_md5_response(b"0011", true),
        Err(Error::Protocol(ProtocolError::InvalidResponse))
    );
    assert_eq!(
        parse_md5_response(b"zz112233445566778899aabbccddeeff", true),
        Err(Error::Protocol(ProtocolError::InvalidResponse))
    );
    assert_eq!(
        parse_md5_response(&[0u8; 17], false),
        Err(Error::Protocol(ProtocolError::InvalidResponse))
    );
}

#[test]
fn test_match_response_settles_matching_opcode() {
    let frame = encode_response(0x0A, 0xCAFE, &[], 0, 0, true);
    match match_response(&frame, 0x0A, true, None) {
        ResponseDisposition::Done(Ok((value, data))) => {
            assert_eq!(value, 0xCAFE);
            assert!(data.is_empty());
        }
        other => panic!("expected Done(Ok(..)), got {:?}", other),
    }
}

#[test]
fn test_match_response_drops_other_opcodes() {
    let frame = encode_response(0x08, 0, &[], 0, 0, false);
    match match_response(&frame, 0x0A, true, None) {
        ResponseDisposition::Mismatch(p) => assert_eq!(p.cmd_code, 0x08),
        other => panic!("expected Mismatch, got {:?}", other),
    }
}

#[test]
fn test_match_response_command_error() {
    let frame = encode_response(0x0A, 0, &[], 1, 0x07, true);
    assert_eq!(
        match_response(&frame, 0x0A, true, None),
        ResponseDisposition::Done(Err(Error::Command(CommandError::InvalidCrc)))
    );
}

#[test]
fn test_match_response_invalid_status() {
    let frame = encode_response(0x0A, 0, &[], 2, 0, true);
    assert_eq!(
        match_response(&frame, 0x0A, true, None),
        ResponseDisposition::Done(Err(Error::Protocol(ProtocolError::InvalidStatus)))
    );
}

#[test]
fn test_error_byte_mapping() {
    let cases: Vec<(u8, CommandError)> = vec![
        (0x05, CommandError::ReceivedMessageInvalid),
        (0x06, CommandError::FailedToActOnMessage),
        (0x07, CommandError::InvalidCrc),
        (0x08, CommandError::FlashWriteError),
        (0x09, CommandError::FlashReadError),
        (0x0A, CommandError::FlashReadLengthError),
        (0x0B, CommandError::DeflateError),
        (0xC0, CommandError::BadDataLen),
        (0xC1, CommandError::BadDataChecksum),
        (0xC2, CommandError::BadBlocksize),
        (0xC3, CommandError::InvalidCommand),
        (0xC4, CommandError::FailedSpiOp),
        (0xC5, CommandError::FailedSpiUnlock),
        (0xC6, CommandError::NotInFlashMode),
        (0xC7, CommandError::InflateError),
        (0xC8, CommandError::NotEnoughData),
        (0xC9, CommandError::TooMuchData),
        (0xFF, CommandError::CommandNotImplemented),
        (0x42, CommandError::UnknownErrorCode),
    ];
    for (byte, expected) in cases {
        assert_eq!(CommandError::from_code(byte), expected);
    }
}

#[test]
fn test_is_timeout() {
    assert!(Error::Timeout.is_timeout());
    assert!(!Error::Transport.is_timeout());
    let r: Result<u32, Error> = Err(Error::Timeout);
    assert!(r.is_timeout());
    let ok: Result<u32, Error> = Ok(3);
    assert!(!ok.is_timeout());
}
