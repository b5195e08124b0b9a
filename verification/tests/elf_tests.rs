use espflashtool::chip::Chip;
use espflashtool::elf::elf_to_image;
use espflashtool::partition::{parse_table, partition_type_names, PartitionEntry};
use espflashtool::{Error, FormatError};

/// A minimal 32-bit little-endian executable ELF with the given program
/// headers appended right after the ELF header.
fn elf_blob(pheaders: &[(u32, u32, u32, u32)], payload: &[u8]) -> Vec<u8> {
    // (p_type, p_offset, p_vaddr, p_filesz)
    let mut blob = vec![0u8; 52];
    blob[0..4].copy_from_slice(b"\x7FELF");
    blob[4] = 1; // 32-bit
    blob[5] = 1; // little-endian
    blob[6] = 1; // ident version
    blob[16..18].copy_from_slice(&2u16.to_le_bytes()); // executable
    blob[18..20].copy_from_slice(&94u16.to_le_bytes()); // machine
    blob[20..24].copy_from_slice(&1u32.to_le_bytes()); // version
    blob[24..28].copy_from_slice(&0x40081CF0u32.to_le_bytes()); // entry
    blob[28..32].copy_from_slice(&52u32.to_le_bytes()); // phoff
    blob[40..42].copy_from_slice(&52u16.to_le_bytes()); // ehsize
    blob[42..44].copy_from_slice(&32u16.to_le_bytes()); // phentsize
    blob[44..46].copy_from_slice(&(pheaders.len() as u16).to_le_bytes()); // phnum
    for &(p_type, p_offset, p_vaddr, p_filesz) in pheaders {
        let mut ph = [0u8; 32];
        ph[0..4].copy_from_slice(&p_type.to_le_bytes());
        ph[4..8].copy_from_slice(&p_offset.to_le_bytes());
        ph[8..12].copy_from_slice(&p_vaddr.to_le_bytes());
        ph[16..20].copy_from_slice(&p_filesz.to_le_bytes());
        blob.extend_from_slice(&ph);
    }
    blob.extend_from_slice(payload);
    blob
}

#[test]
fn test_elf_to_image_segments() {
    // Two program headers; only the PT_LOAD one becomes a segment, its
    // data zero-padded to a multiple of four.
    let payload = [1u8, 2, 3, 4, 5];
    let data_off = 52 + 2 * 32;
    let blob = elf_blob(
        &[
            (1, data_off as u32, 0x3FFE0000, 5),
            (2, 0, 0, 0), // not PT_LOAD
        ],
        &payload,
    );
    let image = elf_to_image(Chip::Esp32C3, &blob).unwrap();
    assert_eq!(image.header.entry_addr, 0x40081CF0);
    assert_eq!(image.header.chip_id, 5);
    assert_eq!(image.header.segment_count, 1);
    assert_eq!(image.header.hash_appended, 1);
    assert_eq!(image.segments.len(), 1);
    assert_eq!(image.segments[0].load_addr, 0x3FFE0000);
    assert_eq!(image.segments[0].data, vec![1, 2, 3, 4, 5, 0, 0, 0]);
    assert_eq!(image.checksum, 0xEF ^ 1 ^ 2 ^ 3 ^ 4 ^ 5);
    assert!(image.hash.is_some());
}

#[test]
fn test_elf_bad_magic() {
    let mut blob = elf_blob(&[], &[]);
    blob[1] = b'X';
    assert_eq!(
        elf_to_image(Chip::Esp32, &blob),
        Err(Error::Format(FormatError::InvalidElf))
    );
}

#[test]
fn test_elf_segment_out_of_range() {
    let blob = elf_blob(&[(1, 0x10000, 0, 8)], &[]);
    assert_eq!(
        elf_to_image(Chip::Esp32, &blob),
        Err(Error::Format(FormatError::InvalidElf))
    );
}

fn partition_record(type_: u8, subtype: u8, offset: u32, size: u32, label: &[u8]) -> Vec<u8> {
    let mut rec = vec![0xAA, 0x50, type_, subtype];
    rec.extend_from_slice(&offset.to_le_bytes());
    rec.extend_from_slice(&size.to_le_bytes());
    let mut name = [0u8; 16];
    name[..label.len()].copy_from_slice(label);
    rec.extend_from_slice(&name);
    rec.extend_from_slice(&0u32.to_le_bytes());
    rec
}

fn hash_record(digest: [u8; 16]) -> Vec<u8> {
    let mut rec = vec![0xEB, 0xEB];
    rec.extend_from_slice(&[0u8; 14]);
    rec.extend_from_slice(&digest);
    rec
}

#[test]
fn test_parse_partition_table() {
    let mut blob = partition_record(0, 0, 0x10000, 0x100000, b"factory");
    blob.extend_from_slice(&partition_record(1, 2, 0x9000, 0x6000, b"nvs"));
    blob.extend_from_slice(&hash_record([7; 16]));
    let table = parse_table(&blob).unwrap();
    assert_eq!(table.entries.len(), 3);
    match &table.entries[0] {
        PartitionEntry::Partition { type_, subtype, offset, size, label, flags } => {
            assert_eq!((*type_, *subtype, *offset, *size, *flags), (0, 0, 0x10000, 0x100000, 0));
            assert_eq!(&label[..7], b"factory");
        }
        other => panic!("expected a partition, got {:?}", other),
    }
    assert_eq!(table.entries[2], PartitionEntry::Hash { digest: [7; 16] });
}

#[test]
fn test_parse_partition_table_errors() {
    // No hash record before the end of input.
    let blob = partition_record(0, 0, 0, 0, b"a");
    assert_eq!(
        parse_table(&blob),
        Err(Error::Format(FormatError::InvalidPartitionTable))
    );
    // A record with an unknown magic.
    let mut bad = partition_record(0, 0, 0, 0, b"a");
    bad[0] = 0x12;
    assert_eq!(
        parse_table(&bad),
        Err(Error::Format(FormatError::InvalidPartitionTable))
    );
}

#[test]
fn test_partition_type_names() {
    let (t, s) = partition_type_names(0, 0);
    assert_eq!((t.as_str(), s.as_str()), ("app", "factory"));
    let (t, s) = partition_type_names(0, 0x10);
    assert_eq!((t.as_str(), s.as_str()), ("app", "ota10"));
    let (t, s) = partition_type_names(1, 0x82);
    assert_eq!((t.as_str(), s.as_str()), ("data", "spiffs"));
    let (t, s) = partition_type_names(0x40, 0x99);
    assert_eq!((t.as_str(), s.as_str()), ("0x40", "0x99"));
}
