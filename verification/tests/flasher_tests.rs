use std::io::Read;

use espflashtool::chip::Chip;
use espflashtool::command::Command;
use espflashtool::flasher::{spi_collect_output, spi_poll_done, flash_id_result, Flasher};
use espflashtool::{Error, FlasherError, ProtocolError};

fn connected(chip: Chip) -> Flasher {
    let mut flasher = Flasher::new();
    let magic = match chip {
        Chip::Esp8266 => 0xFFF0C101,
        Chip::Esp32 => 0x00F01D83,
        Chip::Esp32S2 => 0x000007C6,
        Chip::Esp32S3 => 0x00000009,
        Chip::Esp32C3 => 0x6921506F,
    };
    flasher.identify(magic).unwrap();
    flasher
}

#[test]
fn test_identify_esp32c3() {
    // ReadReg(0x40001000) returning 0x6921506F identifies the ESP32-C3,
    // whose SPI bank sits at 0x60002000.
    let mut flasher = Flasher::new();
    let chip = flasher.identify(0x6921506F).unwrap();
    assert_eq!(chip, Chip::Esp32C3);
    assert_eq!(flasher.chip(), Some(Chip::Esp32C3));
    assert_eq!(chip.spi_regs().cmd, 0x60002000);
}

#[test]
fn test_identify_unknown_magic() {
    let mut flasher = Flasher::new();
    assert_eq!(
        flasher.identify(0xDEADBEEF),
        Err(Error::Usage(FlasherError::UnknownDevice(0xDEADBEEF)))
    );
    assert_eq!(flasher.chip(), None);
}

#[test]
fn test_attach_marks_attached() {
    // After a successful SpiAttach (or the ESP8266's FlashBegin(0,0,0,0))
    // the session is attached.
    let mut flasher = connected(Chip::Esp32);
    assert_eq!(
        flasher.attach_command(),
        Command::SpiAttach { pins: 0, rom_only: 0 }
    );
    assert!(!flasher.attached);
    flasher.on_attach_success();
    assert!(flasher.attached);

    let mut esp8266 = connected(Chip::Esp8266);
    assert_eq!(
        esp8266.attach_command(),
        Command::FlashBegin { total_size: 0, num_packets: 0, packet_size: 0, flash_offset: 0 }
    );
    esp8266.on_attach_success();
    assert!(esp8266.attached);
}

#[test]
fn test_reset_returns_to_rom() {
    let mut flasher = connected(Chip::Esp32);
    flasher.set_rom_loader(false);
    flasher.on_attach_success();
    flasher.reset();
    assert!(flasher.is_rom_loader());
    assert!(!flasher.attached);
    assert_eq!(flasher.chip(), None);
}

#[test]
fn test_stub_hello_flips_peer_mode() {
    let mut flasher = connected(Chip::Esp32S3);
    assert!(flasher.is_rom_loader());
    flasher.on_stub_hello(b"OHAI").unwrap();
    assert!(!flasher.is_rom_loader());
}

#[test]
fn test_stub_hello_rejects_other_frames() {
    let mut flasher = connected(Chip::Esp32S3);
    assert_eq!(
        flasher.on_stub_hello(b"NOPE"),
        Err(Error::Protocol(ProtocolError::StubHelloMissing))
    );
    assert!(flasher.is_rom_loader());
}

#[test]
fn test_spi_command_operand_limits() {
    // command_len 3 is rejected; 65 bytes of MOSI data are rejected.
    let flasher = connected(Chip::Esp32);
    assert!(matches!(
        flasher.spi_command_plan(0x9F, 3, 0, 0, 0, &[], 0),
        Err(Error::Usage(FlasherError::InvalidSpiCommand))
    ));
    let too_much = [0u8; 65];
    assert!(matches!(
        flasher.spi_command_plan(0x02, 1, 0, 0, 0, &too_much, 0),
        Err(Error::Usage(FlasherError::InvalidSpiCommand))
    ));
    assert!(matches!(
        flasher.spi_command_plan(0x02, 1, 0, 0, 0, &[], 65),
        Err(Error::Usage(FlasherError::InvalidSpiCommand))
    ));
    assert!(matches!(
        flasher.spi_command_plan(0x02, 1, 0, 5, 0, &[], 0),
        Err(Error::Usage(FlasherError::InvalidSpiCommand))
    ));
    assert!(matches!(
        flasher.spi_command_plan(0x02, 1, 0, 0, 256, &[], 0),
        Err(Error::Usage(FlasherError::InvalidSpiCommand))
    ));
    assert!(flasher.spi_command_plan(0x02, 2, 0, 4, 255, &[0u8; 64], 64).is_ok());
}

#[test]
fn test_flash_id_sequence_on_esp32() {
    // The flash-id transaction on the ESP32 writes user2, miso_dlen,
    // user1, user and cmd, polls cmd until bit 18 clears, and reads w0.
    let flasher = connected(Chip::Esp32);
    let plan = flasher.flash_id_plan().unwrap();
    assert_eq!(
        plan.writes,
        vec![
            (0x3FF42024, (7 << 28) | 0x9F),      // user2: 7-bit command, opcode 0x9F
            (0x3FF4202C, 23),                    // miso_dlen: 3 bytes - 1 bit count
            (0x3FF42020, 0),                     // user1
            (0x3FF4201C, (1 << 31) | (1 << 28)), // user: command + MISO
            (0x3FF42000, 1 << 18),               // cmd: start
        ]
    );
    assert_eq!(plan.poll_addr, 0x3FF42000);
    assert_eq!(plan.read_addrs, vec![0x3FF42080]);
    assert!(!spi_poll_done(1 << 18));
    assert!(spi_poll_done(0));
    // The three MISO bytes come out of w0 little-endian.
    let out = spi_collect_output(&[0x0018_40EF], 3);
    assert_eq!(out, vec![0xEF, 0x40, 0x18]);
    assert_eq!(flash_id_result(&out), (0xEF, 0x4018));
}

#[test]
fn test_spi_command_with_address_and_mosi() {
    let flasher = connected(Chip::Esp32);
    let plan = flasher
        .spi_command_plan(0x0201, 2, 0x123456, 3, 4, &[0xAA, 0xBB, 0xCC, 0xDD, 0xEE], 0)
        .unwrap();
    assert_eq!(
        plan.writes,
        vec![
            (0x3FF42024, (15 << 28) | 0x0102),  // user2: byte-swapped 2-byte opcode
            (0x3FF42004, 0x563412),             // addr: 3-byte swap
            (0x3FF42028, 39),                   // mosi_dlen: 5 bytes - 1 bit count
            (0x3FF42080, 0xDDCCBBAA),           // w0
            (0x3FF42084, 0xEE),                 // w1
            (0x3FF42020, (23 << 26) | 3),       // user1: address bits, dummy - 1
            (
                0x3FF4201C,
                (1u32 << 31) | (1 << 30) | (1 << 29) | (1 << 27),
            ),                                  // user: command, addr, dummy, MOSI
            (0x3FF42000, 1 << 18),
        ]
    );
}

#[test]
fn test_flash_offset_alignment() {
    // 0x1000 is accepted; 0x0800 is rejected as usage error.
    let flasher = connected(Chip::Esp32);
    assert!(flasher.write_flash_plan(0x1000, &[0u8; 16], false, false).is_ok());
    assert!(matches!(
        flasher.write_flash_plan(0x0800, &[0u8; 16], false, false),
        Err(Error::Usage(FlasherError::MisalignedFlashOffset))
    ));
}

#[test]
fn test_esp8266_flash_refused() {
    let flasher = connected(Chip::Esp8266);
    assert!(matches!(
        flasher.write_flash_plan(0x1000, &[0u8; 16], false, false),
        Err(Error::Usage(FlasherError::Esp8266EraseNotSupported))
    ));
}

#[test]
fn test_plain_flash_plan() {
    let flasher = connected(Chip::Esp32);
    // ROM peer: 0x400-byte packets; 5 bytes pad to one packet of 0xFF.
    let plan = flasher.write_flash_plan(0x1000, &[1, 2, 3, 4, 5], false, true).unwrap();
    assert_eq!(
        plan.begin,
        Command::FlashBegin { total_size: 8, num_packets: 1, packet_size: 0x400, flash_offset: 0x1000 }
    );
    assert_eq!(plan.packets.len(), 1);
    assert_eq!(plan.packets[0].len(), 0x400);
    assert_eq!(&plan.packets[0][..5], &[1, 2, 3, 4, 5]);
    assert!(plan.packets[0][5..].iter().all(|&b| b == 0xFF));
    assert_eq!(plan.end, Some(Command::FlashEnd { reboot: 0 }));
}

#[test]
fn test_compressed_flash_plan_via_stub() {
    // 5000 bytes at 0x10000 against the stub: the padded size is 5000,
    // the erase size 5000, and the compressed stream goes out in
    // 0x4000-byte packets with no final padding.
    let mut flasher = connected(Chip::Esp32);
    flasher.set_rom_loader(false);
    let payload: Vec<u8> = (0..5000u32).map(|i| (i % 251) as u8).collect();
    let plan = flasher.write_flash_plan(0x10000, &payload, true, true).unwrap();

    let compressed: Vec<u8> = plan.packets.concat();
    match plan.begin {
        Command::FlashDeflBegin { total_size, num_packets, packet_size, flash_offset } => {
            assert_eq!(total_size, 5000);
            assert_eq!(packet_size, 0x4000);
            assert_eq!(flash_offset, 0x10000);
            assert_eq!(num_packets as usize, compressed.len().div_ceil(0x4000));
        }
        other => panic!("expected FlashDeflBegin, got {:?}", other),
    }
    for (i, packet) in plan.packets.iter().enumerate() {
        if i + 1 < plan.packets.len() {
            assert_eq!(packet.len(), 0x4000);
        } else {
            assert!(packet.len() <= 0x4000);
        }
    }
    assert_eq!(plan.end, Some(Command::FlashDeflEnd { reboot: 0 }));

    // The packets hold a real DEFLATE stream of the payload.
    let mut decoder = flate2::read::DeflateDecoder::new(compressed.as_slice());
    let mut round_trip = Vec::new();
    decoder.read_to_end(&mut round_trip).unwrap();
    assert_eq!(round_trip, payload);
}

#[test]
fn test_ram_plan_packets() {
    let flasher = connected(Chip::Esp32);
    // ROM peer: packets of up to 0x4000 bytes; the last one is padded.
    let data = vec![7u8; 0x5000];
    let plan = flasher.write_ram_plan(0x40080000, &data);
    assert_eq!(
        plan.begin,
        Command::MemBegin { total_size: 0x5000, num_packets: 2, packet_size: 0x4000, mem_offset: 0x40080000 }
    );
    assert_eq!(plan.packets.len(), 2);
    assert_eq!(plan.packets[0].len(), 0x4000);
    assert_eq!(plan.packets[1].len(), 0x4000);
    assert!(plan.packets[1][0x1000..].iter().all(|&b| b == 0xFF));

    // Stub peer: the ceiling drops to 0x1800.
    let mut stubbed = connected(Chip::Esp32);
    stubbed.set_rom_loader(false);
    let stub_plan = stubbed.write_ram_plan(0x40080000, &data);
    match stub_plan.begin {
        Command::MemBegin { num_packets, packet_size, .. } => {
            assert_eq!(packet_size, 0x1800);
            assert_eq!(num_packets, 0x5000u32.div_ceil(0x1800));
        }
        other => panic!("expected MemBegin, got {:?}", other),
    }
}

#[test]
fn test_mem_end_timeout_tolerated_only_on_rom() {
    let mut flasher = connected(Chip::Esp32);
    assert!(flasher.mem_end_timeout_tolerated());
    flasher.set_rom_loader(false);
    assert!(!flasher.mem_end_timeout_tolerated());
}
