use espflashtool::chip::Chip;
use espflashtool::flasher::Flasher;
use espflashtool::stub::{parse_stub, Stub};
use espflashtool::{Error, FlasherError, FormatError};

fn stub_blob(chip_word: u32, text: &[u8], data: &[u8]) -> Vec<u8> {
    let mut blob = Vec::new();
    blob.extend_from_slice(b"STUB");
    blob.extend_from_slice(&chip_word.to_le_bytes());
    blob.extend_from_slice(&0x4009F000u32.to_le_bytes()); // entry
    blob.extend_from_slice(&0x40080000u32.to_le_bytes()); // text_start
    blob.extend_from_slice(&(text.len() as u32).to_le_bytes());
    blob.extend_from_slice(text);
    blob.extend_from_slice(&0x3FFE0000u32.to_le_bytes()); // data_start
    blob.extend_from_slice(&(data.len() as u32).to_le_bytes());
    blob.extend_from_slice(data);
    blob
}

#[test]
fn test_parse_stub() {
    let blob = stub_blob(9, &[1, 2, 3], &[4, 5]);
    let stub = parse_stub(&blob).unwrap();
    assert_eq!(stub.chip, 9);
    assert_eq!(stub.entry, 0x4009F000);
    assert_eq!(stub.text_start, 0x40080000);
    assert_eq!(stub.text, vec![1, 2, 3]);
    assert_eq!(stub.data_start, 0x3FFE0000);
    assert_eq!(stub.data, vec![4, 5]);
}

#[test]
fn test_parse_stub_bad_magic() {
    let mut blob = stub_blob(9, &[], &[]);
    blob[0] = b'X';
    assert_eq!(
        parse_stub(&blob),
        Err(Error::Format(FormatError::InvalidStubBlob))
    );
}

#[test]
fn test_parse_stub_truncated() {
    let blob = stub_blob(9, &[1, 2, 3, 4, 5, 6], &[]);
    assert_eq!(
        parse_stub(&blob[..blob.len() - 10]),
        Err(Error::Format(FormatError::InvalidStubBlob))
    );
}

#[test]
fn test_stub_chip_words() {
    let stub = |word: u32| Stub {
        chip: word,
        entry: 0,
        text_start: 0,
        text: Vec::new(),
        data_start: 0,
        data: Vec::new(),
    };
    assert_eq!(stub(0).chip(), Some(Chip::Esp32));
    assert_eq!(stub(2).chip(), Some(Chip::Esp32S2));
    assert_eq!(stub(5).chip(), Some(Chip::Esp32C3));
    assert_eq!(stub(9).chip(), Some(Chip::Esp32S3));
    assert_eq!(stub(0x10000).chip(), Some(Chip::Esp8266));
    assert_eq!(stub(0x10001).chip(), None);
    assert_eq!(stub(3).chip(), None);
}

#[test]
fn test_stub_activation_flow() {
    // Stub activation on the ESP32-S3: text to text_start, data to
    // data_start with MemEnd at the entry, a tolerated MemEnd timeout,
    // and the OHAI greeting flipping the peer mode.
    let mut flasher = Flasher::new();
    flasher.identify(0x00000009).unwrap();
    let blob = stub_blob(9, &[0x11; 100], &[0x22; 40]);
    let stub = flasher.run_stub_begin(&blob).unwrap();

    let text_plan = flasher.write_ram_plan(stub.text_start, &stub.text);
    assert_eq!(text_plan.packets.len(), 1);
    let data_plan = flasher.write_ram_plan(stub.data_start, &stub.data);
    assert_eq!(data_plan.packets.len(), 1);

    // The ROM may jump before acknowledging MemEnd.
    assert!(flasher.mem_end_timeout_tolerated());

    flasher.on_stub_hello(b"OHAI").unwrap();
    assert!(!flasher.is_rom_loader());

    // A second activation is refused.
    assert_eq!(
        flasher.run_stub_begin(&blob),
        Err(Error::Usage(FlasherError::StubAlreadyRunning))
    );
}

#[test]
fn test_stub_chip_mismatch() {
    let mut flasher = Flasher::new();
    flasher.identify(0x00F01D83).unwrap(); // ESP32
    let blob = stub_blob(9, &[1], &[2]); // built for the ESP32-S3
    assert_eq!(
        flasher.run_stub_begin(&blob),
        Err(Error::Usage(FlasherError::StubChipMismatch))
    );
}
