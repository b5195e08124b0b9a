//! The bootloader command set and its wire format.
//!
//! A command packet is an 8-byte header followed by a body:
//! byte 0 the direction (always 0), byte 1 the opcode, bytes 2..4 the body
//! length little-endian, bytes 4..8 the checksum word, then the
//! command-specific body and, for the data-bearing commands, the raw
//! payload.  The checksum word is 0xEF XORed over every payload byte for
//! FlashData, MemData and FlashDeflData, and zero for every other command.
//!
//! A response frame is at least 10 bytes: direction 1, opcode echo, body
//! length little-endian, a 32-bit value, and a body that ends in a status
//! trailer of 2 bytes (stub loader and ESP8266 ROM) or 4 bytes
//! (ESP32-family ROM).

use vstd::prelude::*;
use vstd::slice::slice_to_vec;

use crate::{le16_bytes, le32_bytes, Error, FormatError, ProtocolError};

verus! {

/// The default per-command deadline, in milliseconds.
pub const DEFAULT_TIMEOUT_MS: u64 = 3000;

/// The deadline of one Sync round, in milliseconds.
pub const SYNC_TIMEOUT_MS: u64 = 100;

/// A bootloader command with its payload-specific fields.  All integers
/// travel little-endian.
#[derive(Clone, Copy, Debug, PartialEq, Eq, Structural)]
pub enum Command {
    // Commands of the ESP8266 and ESP32 first-stage loaders.
    FlashBegin { total_size: u32, num_packets: u32, packet_size: u32, flash_offset: u32 },
    FlashData { data_size: u32, sequence_num: u32 },
    FlashEnd { reboot: u32 },
    MemBegin { total_size: u32, num_packets: u32, packet_size: u32, mem_offset: u32 },
    MemEnd { execute: u32, entry_point: u32 },
    MemData { data_size: u32, sequence_num: u32 },
    Sync,
    WriteReg { address: u32, value: u32, mask: u32, delay: u32 },
    ReadReg { address: u32 },
    // Commands of the ESP32-family loaders.
    SpiSetParams {
        id: u32,
        total_size: u32,
        block_size: u32,
        sector_size: u32,
        page_size: u32,
        status_mask: u32,
    },
    SpiAttach { pins: u32, rom_only: u32 },
    ChangeBaudRate { new_rate: u32, old_rate: u32 },
    FlashDeflBegin { total_size: u32, num_packets: u32, packet_size: u32, flash_offset: u32 },
    FlashDeflData { data_size: u32, sequence_num: u32 },
    FlashDeflEnd { reboot: u32 },
    SpiFlashMD5 { address: u32, size: u32 },
    // Stub-only commands.
    EraseFlash,
    EraseRegion { offset: u32, size: u32 },
    ReadFlash { offset: u32, read_length: u32, packet_size: u32, max_pending_packets: u32 },
    RunUserCode,
}

/// The wire opcode of each command.
pub open spec fn opcode(cmd: Command) -> u8 {
    match cmd {
        Command::FlashBegin { .. } => 0x02,
        Command::FlashData { .. } => 0x03,
        Command::FlashEnd { .. } => 0x04,
        Command::MemBegin { .. } => 0x05,
        Command::MemEnd { .. } => 0x06,
        Command::MemData { .. } => 0x07,
        Command::Sync => 0x08,
        Command::WriteReg { .. } => 0x09,
        Command::ReadReg { .. } => 0x0A,
        Command::SpiSetParams { .. } => 0x0B,
        Command::SpiAttach { .. } => 0x0D,
        Command::ChangeBaudRate { .. } => 0x0F,
        Command::FlashDeflBegin { .. } => 0x10,
        Command::FlashDeflData { .. } => 0x11,
        Command::FlashDeflEnd { .. } => 0x12,
        Command::SpiFlashMD5 { .. } => 0x13,
        Command::EraseFlash => 0xD0,
        Command::EraseRegion { .. } => 0xD1,
        Command::ReadFlash { .. } => 0xD2,
        Command::RunUserCode => 0xD3,
    }
}

/// The name of each opcode of the table; every other code is "Unknown".
pub open spec fn opcode_name(code: u8) -> Seq<char> {
    if code == 0x02 {
        "FlashBegin"@
    } else if code == 0x03 {
        "FlashData"@
    } else if code == 0x04 {
        "FlashEnd"@
    } else if code == 0x05 {
        "MemBegin"@
    } else if code == 0x06 {
        "MemEnd"@
    } else if code == 0x07 {
        "MemData"@
    } else if code == 0x08 {
        "Sync"@
    } else if code == 0x09 {
        "WriteReg"@
    } else if code == 0x0A {
        "ReadReg"@
    } else if code == 0x0B {
        "SpiSetParams"@
    } else if code == 0x0D {
        "SpiAttach"@
    } else if code == 0x0F {
        "ChangeBaudRate"@
    } else if code == 0x10 {
        "FlashDeflBegin"@
    } else if code == 0x11 {
        "FlashDeflData"@
    } else if code == 0x12 {
        "FlashDeflEnd"@
    } else if code == 0x13 {
        "SpiFlashMD5"@
    } else if code == 0xD0 {
        "EraseFlash"@
    } else if code == 0xD1 {
        "EraseRegion"@
    } else if code == 0xD2 {
        "ReadFlash"@
    } else if code == 0xD3 {
        "RunUserCode"@
    } else {
        "Unknown"@
    }
}

/// Whether `op` is an opcode of the table; every other code is reserved.
pub open spec fn known_opcode(op: u8) -> bool {
    (0x02 <= op <= 0x0B) || op == 0x0D || (0x0F <= op <= 0x13) || (0xD0 <= op <= 0xD3)
}

/// Whether the command carries a raw data payload after its body, and
/// with it a meaningful checksum word.
pub open spec fn has_payload(cmd: Command) -> bool {
    cmd is FlashData || cmd is MemData || cmd is FlashDeflData
}

/// 0xEF XORed over every byte of the payload.
pub open spec fn xor_checksum(data: Seq<u8>) -> u8
    decreases data.len(),
{
    if data.len() == 0 {
        0xEF
    } else {
        xor_checksum(data.drop_last()) ^ data.last()
    }
}

/// The body of the Sync command: `07 07 12 20` then 32 bytes of 0x55.
pub open spec fn sync_body() -> Seq<u8> {
    seq![0x07u8, 0x07, 0x12, 0x20] + Seq::new(32, |i: int| 0x55u8)
}

/// The encoded body of a command.  Two commands depend on who answers:
/// SpiAttach gains a trailing word against the ROM loader, and the
/// ChangeBaudRate old-rate convention is handled by the caller that
/// builds the command.
pub open spec fn body_bytes(cmd: Command, rom_loader: bool) -> Seq<u8> {
    match cmd {
        Command::FlashBegin { total_size, num_packets, packet_size, flash_offset } =>
            le32_bytes(total_size) + le32_bytes(num_packets) + le32_bytes(packet_size)
                + le32_bytes(flash_offset),
        Command::FlashData { data_size, sequence_num } =>
            le32_bytes(data_size) + le32_bytes(sequence_num) + le32_bytes(0) + le32_bytes(0),
        Command::FlashEnd { reboot } => le32_bytes(reboot),
        Command::MemBegin { total_size, num_packets, packet_size, mem_offset } =>
            le32_bytes(total_size) + le32_bytes(num_packets) + le32_bytes(packet_size)
                + le32_bytes(mem_offset),
        Command::MemEnd { execute, entry_point } => le32_bytes(execute) + le32_bytes(entry_point),
        Command::MemData { data_size, sequence_num } =>
            le32_bytes(data_size) + le32_bytes(sequence_num) + le32_bytes(0) + le32_bytes(0),
        Command::Sync => sync_body(),
        Command::WriteReg { address, value, mask, delay } =>
            le32_bytes(address) + le32_bytes(value) + le32_bytes(mask) + le32_bytes(delay),
        Command::ReadReg { address } => le32_bytes(address),
        Command::SpiSetParams { id, total_size, block_size, sector_size, page_size, status_mask } =>
            le32_bytes(id) + le32_bytes(total_size) + le32_bytes(block_size)
                + le32_bytes(sector_size) + le32_bytes(page_size) + le32_bytes(status_mask),
        Command::SpiAttach { pins, rom_only } =>
            le32_bytes(pins) + if rom_loader {
                le32_bytes(rom_only)
            } else {
                Seq::empty()
            },
        Command::ChangeBaudRate { new_rate, old_rate } =>
            le32_bytes(new_rate) + le32_bytes(old_rate),
        Command::FlashDeflBegin { total_size, num_packets, packet_size, flash_offset } =>
            le32_bytes(total_size) + le32_bytes(num_packets) + le32_bytes(packet_size)
                + le32_bytes(flash_offset),
        Command::FlashDeflData { data_size, sequence_num } =>
            le32_bytes(data_size) + le32_bytes(sequence_num) + le32_bytes(0) + le32_bytes(0),
        Command::FlashDeflEnd { reboot } => le32_bytes(reboot),
        Command::SpiFlashMD5 { address, size } =>
            le32_bytes(address) + le32_bytes(size) + le32_bytes(0) + le32_bytes(0),
        Command::EraseFlash => Seq::empty(),
        Command::EraseRegion { offset, size } => le32_bytes(offset) + le32_bytes(size),
        Command::ReadFlash { offset, read_length, packet_size, max_pending_packets } =>
            le32_bytes(offset) + le32_bytes(read_length) + le32_bytes(packet_size)
                + le32_bytes(max_pending_packets),
        Command::RunUserCode => Seq::empty(),
    }
}

/// The checksum word of the packet header: the payload checksum for
/// data-bearing commands, zero otherwise.
pub open spec fn checksum_field(cmd: Command, data: Seq<u8>) -> u32 {
    if has_payload(cmd) {
        xor_checksum(data) as u32
    } else {
        0
    }
}

/// The whole command packet: header, body, payload.
pub open spec fn packet_bytes(cmd: Command, data: Seq<u8>, rom_loader: bool) -> Seq<u8> {
    seq![0u8, opcode(cmd)]
        + le16_bytes((body_bytes(cmd, rom_loader).len() + data.len()) as u16)
        + le32_bytes(checksum_field(cmd, data)) + body_bytes(cmd, rom_loader) + data
}

/// The packet layout: byte 0 is the direction 0; byte 1 is the opcode;
/// bytes 2..4 are the body length, little-endian; bytes 4..8 are the
/// checksum word, whose low byte is 0xEF XORed over the payload for the
/// data-bearing commands and whose other bytes are zero, and which is
/// zero entirely for every other command; the body and the payload
/// follow.
pub proof fn lemma_packet_layout(cmd: Command, data: Seq<u8>, rom_loader: bool)
    requires
        body_bytes(cmd, rom_loader).len() + data.len() <= 0xFFFF,
    ensures
        packet_bytes(cmd, data, rom_loader).len() == 8 + body_bytes(cmd, rom_loader).len()
            + data.len(),
        packet_bytes(cmd, data, rom_loader)[0] == 0,
        packet_bytes(cmd, data, rom_loader)[1] == opcode(cmd),
        packet_bytes(cmd, data, rom_loader).subrange(2, 4) == le16_bytes(
            (body_bytes(cmd, rom_loader).len() + data.len()) as u16,
        ),
        packet_bytes(cmd, data, rom_loader).subrange(4, 8) == le32_bytes(
            checksum_field(cmd, data),
        ),
        has_payload(cmd) ==> checksum_field(cmd, data) == xor_checksum(data)
            && packet_bytes(cmd, data, rom_loader)[4] == xor_checksum(data)
            && packet_bytes(cmd, data, rom_loader)[5] == 0
            && packet_bytes(cmd, data, rom_loader)[6] == 0
            && packet_bytes(cmd, data, rom_loader)[7] == 0,
        !has_payload(cmd) ==> packet_bytes(cmd, data, rom_loader).subrange(4, 8) == le32_bytes(0),
        packet_bytes(cmd, data, rom_loader).subrange(
            8,
            8 + body_bytes(cmd, rom_loader).len() as int,
        ) == body_bytes(cmd, rom_loader),
        packet_bytes(cmd, data, rom_loader).skip(
            8 + body_bytes(cmd, rom_loader).len() as int,
        ) == data,
{
    let p = packet_bytes(cmd, data, rom_loader);
    let body = body_bytes(cmd, rom_loader);
    assert(p.subrange(2, 4) =~= le16_bytes((body.len() + data.len()) as u16));
    assert(p.subrange(4, 8) =~= le32_bytes(checksum_field(cmd, data)));
    assert(p.subrange(8, 8 + body.len() as int) =~= body);
    assert(p.skip(8 + body.len() as int) =~= data);
    if has_payload(cmd) {
        let c = xor_checksum(data) as u32;
        assert(c & 0xFF == c && (c >> 8) & 0xFF == 0 && (c >> 16) & 0xFF == 0 && (c >> 24) & 0xFF
            == 0) by (bit_vector)
            requires
                c < 0x100,
        ;
    } else {
        assert(p.subrange(4, 8) =~= le32_bytes(0));
    }
}

/// Append the four little-endian bytes of `v`.
pub fn push_le32(out: &mut Vec<u8>, v: u32)
    ensures
        final(out)@ == old(out)@ + le32_bytes(v),
{
    out.push((v & 0xFF) as u8);
    out.push(((v >> 8) & 0xFF) as u8);
    out.push(((v >> 16) & 0xFF) as u8);
    out.push(((v >> 24) & 0xFF) as u8);
    proof {
        assert(out@ =~= old(out)@ + le32_bytes(v));
    }
}

/// Append the two little-endian bytes of `v`.
pub fn push_le16(out: &mut Vec<u8>, v: u16)
    ensures
        final(out)@ == old(out)@ + le16_bytes(v),
{
    out.push((v & 0xFF) as u8);
    out.push(((v >> 8) & 0xFF) as u8);
    proof {
        assert(out@ =~= old(out)@ + le16_bytes(v));
    }
}

/// 0xEF XORed over every byte of `data`.
pub fn compute_checksum(data: &[u8]) -> (r: u8)
    ensures
        r == xor_checksum(data@),
{
    let mut checksum: u8 = 0xEF;
    let mut i: usize = 0;
    proof {
        assert(data@.take(0) =~= Seq::<u8>::empty());
    }
    while i < data.len()
        invariant
            i <= data@.len(),
            checksum == xor_checksum(data@.take(i as int)),
        decreases data@.len() - i,
    {
        proof {
            assert(data@.take(i as int + 1).drop_last() =~= data@.take(i as int));
            assert(data@.take(i as int + 1).last() == data@[i as int]);
        }
        checksum = checksum ^ data[i];
        i = i + 1;
    }
    proof {
        assert(data@.take(data@.len() as int) =~= data@);
    }
    checksum
}

/// Build the whole packet for `cmd` with payload `data`.
pub fn encode_packet(cmd: &Command, data: &[u8], rom_loader: bool) -> (r: Vec<u8>)
    requires
        body_bytes(*cmd, rom_loader).len() + data@.len() <= 0xFFFF,
    ensures
        r@ == packet_bytes(*cmd, data@, rom_loader),
{
    let mut body = cmd.encode_body(rom_loader);
    let code = cmd.code();
    let cf: u32 = if cmd.has_data_payload() {
        compute_checksum(data) as u32
    } else {
        0
    };
    let len16: u16 = (body.len() + data.len()) as u16;
    let mut out: Vec<u8> = Vec::new();
    out.push(0);
    out.push(code);
    push_le16(&mut out, len16);
    push_le32(&mut out, cf);
    out.append(&mut body);
    let mut dv = slice_to_vec(data);
    out.append(&mut dv);
    proof {
        assert(out@ =~= packet_bytes(*cmd, data@, rom_loader));
    }
    out
}

impl Command {
    /// The wire opcode of this command.
    pub fn code(&self) -> (r: u8)
        ensures
            r == opcode(*self),
            known_opcode(r),
    {
        match self {
            Command::FlashBegin { .. } => 0x02,
            Command::FlashData { .. } => 0x03,
            Command::FlashEnd { .. } => 0x04,
            Command::MemBegin { .. } => 0x05,
            Command::MemEnd { .. } => 0x06,
            Command::MemData { .. } => 0x07,
            Command::Sync => 0x08,
            Command::WriteReg { .. } => 0x09,
            Command::ReadReg { .. } => 0x0A,
            Command::SpiSetParams { .. } => 0x0B,
            Command::SpiAttach { .. } => 0x0D,
            Command::ChangeBaudRate { .. } => 0x0F,
            Command::FlashDeflBegin { .. } => 0x10,
            Command::FlashDeflData { .. } => 0x11,
            Command::FlashDeflEnd { .. } => 0x12,
            Command::SpiFlashMD5 { .. } => 0x13,
            Command::EraseFlash => 0xD0,
            Command::EraseRegion { .. } => 0xD1,
            Command::ReadFlash { .. } => 0xD2,
            Command::RunUserCode => 0xD3,
        }
    }

    /// The name of the command with opcode `code`.
    pub fn name_from_code(code: u8) -> (r: &'static str)
        ensures
            r@ == opcode_name(code),
    {
        match code {
            0x02 => "FlashBegin",
            0x03 => "FlashData",
            0x04 => "FlashEnd",
            0x05 => "MemBegin",
            0x06 => "MemEnd",
            0x07 => "MemData",
            0x08 => "Sync",
            0x09 => "WriteReg",
            0x0A => "ReadReg",
            0x0B => "SpiSetParams",
            0x0D => "SpiAttach",
            0x0F => "ChangeBaudRate",
            0x10 => "FlashDeflBegin",
            0x11 => "FlashDeflData",
            0x12 => "FlashDeflEnd",
            0x13 => "SpiFlashMD5",
            0xD0 => "EraseFlash",
            0xD1 => "EraseRegion",
            0xD2 => "ReadFlash",
            0xD3 => "RunUserCode",
            _ => "Unknown",
        }
    }

    /// Whether this command transports a raw data payload.
    pub fn has_data_payload(&self) -> (r: bool)
        ensures
            r == has_payload(*self),
    {
        matches!(
            self,
            Command::FlashData { .. } | Command::MemData { .. } | Command::FlashDeflData { .. }
        )
    }

    /// The per-command deadline in milliseconds: 100 ms for Sync, 3 s
    /// otherwise.
    pub fn timeout(&self) -> (r: u64)
        ensures
            r == if *self is Sync {
                SYNC_TIMEOUT_MS as int
            } else {
                DEFAULT_TIMEOUT_MS as int
            },
    {
        match self {
            Command::Sync => SYNC_TIMEOUT_MS,
            _ => DEFAULT_TIMEOUT_MS,
        }
    }

    /// A SpiAttach command from explicit pin assignments.  Pins 0..=30
    /// map to themselves, pins 32 and 33 fold to 30 and 31; any other
    /// assignment is a programming error and is excluded by the
    /// precondition.
    pub fn spi_attach(hd_pin: u32, q_pin: u32, d_pin: u32, cs_pin: u32, clk_pin: u32) -> (r:
        Command)
        requires
            valid_pin(hd_pin),
            valid_pin(q_pin),
            valid_pin(d_pin),
            valid_pin(cs_pin),
            valid_pin(clk_pin),
        ensures
            r == (Command::SpiAttach {
                pins: spi_pin_pack(hd_pin, q_pin, d_pin, cs_pin, clk_pin),
                rom_only: 0,
            }),
    {
        Command::SpiAttach {
            pins: (pin_field_x(hd_pin) << 24u32) | (pin_field_x(q_pin) << 18u32) | (pin_field_x(
                d_pin,
            ) << 12u32) | (pin_field_x(cs_pin) << 6u32) | pin_field_x(clk_pin),
            rom_only: 0,
        }
    }

    /// A MemBegin command for a RAM upload of `total_size` bytes in
    /// packets of at most `max_packet_size`: the packet count covers the
    /// whole upload and no packet is wasted.
    pub fn mem_begin(mem_offset: u32, total_size: u32, max_packet_size: u32) -> (r: Command)
        requires
            1 <= total_size,
            1 <= max_packet_size,
        ensures
            r matches Command::MemBegin {
                total_size: t,
                num_packets: n,
                packet_size: p,
                mem_offset: o,
            } && t == total_size && o == mem_offset && p == min_u32(
                total_size,
                max_packet_size,
            ) && n * p >= total_size && (n - 1) * p < total_size,
    {
        let packet_size = if total_size < max_packet_size {
            total_size
        } else {
            max_packet_size
        };
        let num_packets = div_ceil(total_size, packet_size);
        Command::MemBegin { total_size, num_packets, packet_size, mem_offset }
    }

    /// A FlashBegin command for a flash upload of `total_size` bytes in
    /// packets of at most `max_packet_size`.
    pub fn flash_begin(flash_offset: u32, total_size: u32, max_packet_size: u32) -> (r: Command)
        requires
            1 <= total_size,
            1 <= max_packet_size,
        ensures
            r matches Command::FlashBegin {
                total_size: t,
                num_packets: n,
                packet_size: p,
                flash_offset: o,
            } && t == total_size && o == flash_offset && p == min_u32(
                total_size,
                max_packet_size,
            ) && n * p >= total_size && (n - 1) * p < total_size,
    {
        let packet_size = if total_size < max_packet_size {
            total_size
        } else {
            max_packet_size
        };
        let num_packets = div_ceil(total_size, packet_size);
        Command::FlashBegin { total_size, num_packets, packet_size, flash_offset }
    }

    /// The encoded body of this command.
    pub fn encode_body(&self, rom_loader: bool) -> (r: Vec<u8>)
        ensures
            r@ == body_bytes(*self, rom_loader),
    {
        let mut out: Vec<u8> = Vec::new();
        match self {
            Command::FlashBegin { total_size, num_packets, packet_size, flash_offset } => {
                push_le32(&mut out, *total_size);
                push_le32(&mut out, *num_packets);
                push_le32(&mut out, *packet_size);
                push_le32(&mut out, *flash_offset);
                proof { assert(out@ =~= body_bytes(*self, rom_loader)); }
            },
            Command::FlashData { data_size, sequence_num } => {
                push_le32(&mut out, *data_size);
                push_le32(&mut out, *sequence_num);
                push_le32(&mut out, 0);
                push_le32(&mut out, 0);
                proof { assert(out@ =~= body_bytes(*self, rom_loader)); }
            },
            Command::FlashEnd { reboot } => {
                push_le32(&mut out, *reboot);
                proof { assert(out@ =~= body_bytes(*self, rom_loader)); }
            },
            Command::MemBegin { total_size, num_packets, packet_size, mem_offset } => {
                push_le32(&mut out, *total_size);
                push_le32(&mut out, *num_packets);
                push_le32(&mut out, *packet_size);
                push_le32(&mut out, *mem_offset);
                proof { assert(out@ =~= body_bytes(*self, rom_loader)); }
            },
            Command::MemEnd { execute, entry_point } => {
                push_le32(&mut out, *execute);
                push_le32(&mut out, *entry_point);
                proof { assert(out@ =~= body_bytes(*self, rom_loader)); }
            },
            Command::MemData { data_size, sequence_num } => {
                push_le32(&mut out, *data_size);
                push_le32(&mut out, *sequence_num);
                push_le32(&mut out, 0);
                push_le32(&mut out, 0);
                proof { assert(out@ =~= body_bytes(*self, rom_loader)); }
            },
            Command::Sync => {
                out.push(0x07);
                out.push(0x07);
                out.push(0x12);
                out.push(0x20);
                let mut i: usize = 0;
                while i < 32
                    invariant
                        i <= 32,
                        out@ == seq![0x07u8, 0x07, 0x12, 0x20] + Seq::new(
                            i as nat,
                            |j: int| 0x55u8,
                        ),
                    decreases 32 - i,
                {
                    out.push(0x55);
                    i = i + 1;
                    proof {
                        assert(out@ =~= seq![0x07u8, 0x07, 0x12, 0x20] + Seq::new(
                            i as nat,
                            |j: int| 0x55u8,
                        ));
                    }
                }
                proof {
                    assert(out@ =~= sync_body());
                    assert(out@ =~= body_bytes(*self, rom_loader));
                }
            },
            Command::WriteReg { address, value, mask, delay } => {
                push_le32(&mut out, *address);
                push_le32(&mut out, *value);
                push_le32(&mut out, *mask);
                push_le32(&mut out, *delay);
                proof { assert(out@ =~= body_bytes(*self, rom_loader)); }
            },
            Command::ReadReg { address } => {
                push_le32(&mut out, *address);
                proof { assert(out@ =~= body_bytes(*self, rom_loader)); }
            },
            Command::SpiSetParams {
                id,
                total_size,
                block_size,
                sector_size,
                page_size,
                status_mask,
            } => {
                push_le32(&mut out, *id);
                push_le32(&mut out, *total_size);
                push_le32(&mut out, *block_size);
                push_le32(&mut out, *sector_size);
                push_le32(&mut out, *page_size);
                push_le32(&mut out, *status_mask);
                proof { assert(out@ =~= body_bytes(*self, rom_loader)); }
            },
            Command::SpiAttach { pins, rom_only } => {
                push_le32(&mut out, *pins);
                if rom_loader {
                    push_le32(&mut out, *rom_only);
                }
                proof { assert(out@ =~= body_bytes(*self, rom_loader)); }
            },
            Command::ChangeBaudRate { new_rate, old_rate } => {
                push_le32(&mut out, *new_rate);
                push_le32(&mut out, *old_rate);
                proof { assert(out@ =~= body_bytes(*self, rom_loader)); }
            },
            Command::FlashDeflBegin { total_size, num_packets, packet_size, flash_offset } => {
                push_le32(&mut out, *total_size);
                push_le32(&mut out, *num_packets);
                push_le32(&mut out, *packet_size);
                push_le32(&mut out, *flash_offset);
                proof { assert(out@ =~= body_bytes(*self, rom_loader)); }
            },
            Command::FlashDeflData { data_size, sequence_num } => {
                push_le32(&mut out, *data_size);
                push_le32(&mut out, *sequence_num);
                push_le32(&mut out, 0);
                push_le32(&mut out, 0);
                proof { assert(out@ =~= body_bytes(*self, rom_loader)); }
            },
            Command::FlashDeflEnd { reboot } => {
                push_le32(&mut out, *reboot);
                proof { assert(out@ =~= body_bytes(*self, rom_loader)); }
            },
            Command::SpiFlashMD5 { address, size } => {
                push_le32(&mut out, *address);
                push_le32(&mut out, *size);
                push_le32(&mut out, 0);
                push_le32(&mut out, 0);
                proof { assert(out@ =~= body_bytes(*self, rom_loader)); }
            },
            Command::EraseFlash => {
                proof { assert(out@ =~= body_bytes(*self, rom_loader)); }
            },
            Command::EraseRegion { offset, size } => {
                push_le32(&mut out, *offset);
                push_le32(&mut out, *size);
                proof { assert(out@ =~= body_bytes(*self, rom_loader)); }
            },
            Command::ReadFlash { offset, read_length, packet_size, max_pending_packets } => {
                push_le32(&mut out, *offset);
                push_le32(&mut out, *read_length);
                push_le32(&mut out, *packet_size);
                push_le32(&mut out, *max_pending_packets);
                proof { assert(out@ =~= body_bytes(*self, rom_loader)); }
            },
            Command::RunUserCode => {
                proof { assert(out@ =~= body_bytes(*self, rom_loader)); }
            },
        }
        out
    }
}

/// A pin number the attach pack accepts.
pub open spec fn valid_pin(pin: u32) -> bool {
    pin <= 30 || pin == 32 || pin == 33
}

/// The 6-bit field of one pin: 32 and 33 fold to 30 and 31.
pub open spec fn pin_field(pin: u32) -> u32 {
    if pin == 32 {
        30
    } else if pin == 33 {
        31
    } else {
        pin
    }
}

/// The packed pin word of SpiAttach.
pub open spec fn spi_pin_pack(hd: u32, q: u32, d: u32, cs: u32, clk: u32) -> u32 {
    (pin_field(hd) << 24) | (pin_field(q) << 18) | (pin_field(d) << 12) | (pin_field(cs) << 6)
        | pin_field(clk)
}

/// The 6-bit pin field, executable.
fn pin_field_x(pin: u32) -> (r: u32)
    requires
        valid_pin(pin),
    ensures
        r == pin_field(pin),
{
    match pin {
        32 => 30,
        33 => 31,
        _ => pin,
    }
}

// ---------------------------------------------------------------------------
// Response parsing
// ---------------------------------------------------------------------------

/// A parsed response frame.
#[derive(Clone, Debug, PartialEq, Eq)]
pub struct ResponsePacket {
    /// The opcode echo.
    pub cmd_code: u8,
    /// The 32-bit value word.
    pub value: u32,
    /// The response data between the value word and the status trailer.
    pub data: Vec<u8>,
    /// 0 for success, 1 for a command failure.
    pub status: u8,
    /// The error byte; meaningful when `status` is 1.
    pub error: u8,
    /// The two padding bytes of the wide (4-byte) status trailer.
    pub reserved: Option<[u8; 2]>,
}

/// The response data length the table expects for `op`: zero for every
/// opcode but SpiFlashMD5, which answers 32 hex digits from a ROM loader
/// and 16 raw bytes from the stub.
pub open spec fn expected_data_len(op: u8, rom_loader: bool) -> int {
    if op == 0x13 {
        if rom_loader {
            32
        } else {
            16
        }
    } else {
        0
    }
}

/// The body length field of a raw response frame.
pub open spec fn resp_len(s: Seq<u8>) -> int {
    s[2] + 0x100 * s[3]
}

/// The value word of a raw response frame.
pub open spec fn resp_value(s: Seq<u8>) -> int {
    s[4] + 0x100 * s[5] + 0x10000 * s[6] + 0x1000000 * s[7]
}

/// A raw frame with a well-formed response header: long enough, inbound
/// direction, and a length field that matches the frame and covers at
/// least a narrow status trailer.
pub open spec fn resp_header_ok(s: Seq<u8>) -> bool {
    &&& s.len() >= 10
    &&& s[0] == 1
    &&& s.len() == 8 + resp_len(s)
    &&& resp_len(s) >= 2
}

/// The status-trailer width of a response with body length `l`: derived
/// from the opcode table where the opcode is known (the width is what
/// remains after the expected data, and must be 2 or 4), and from the
/// session's cached width otherwise.  `None` when no valid width can be
/// derived.
pub open spec fn status_width_of(op: u8, rom_loader: bool, cached: Option<u8>, l: int) -> Option<
    int,
> {
    if known_opcode(op) {
        let w = l - expected_data_len(op, rom_loader);
        if w == 2 || w == 4 {
            Some(w)
        } else {
            None
        }
    } else {
        match cached {
            Some(cw) => if (cw == 2 || cw == 4) && l >= cw {
                Some(cw as int)
            } else {
                None
            },
            None => None,
        }
    }
}

/// For a known opcode the accepted trailer width is exactly the body
/// length minus the expected data length, and is 2 or 4.
pub proof fn lemma_known_opcode_trailer(op: u8, rom_loader: bool, cached: Option<u8>, l: int)
    requires
        known_opcode(op),
        status_width_of(op, rom_loader, cached, l) is Some,
    ensures
        status_width_of(op, rom_loader, cached, l) == Some(l - expected_data_len(op, rom_loader)),
        l - expected_data_len(op, rom_loader) == 2 || l - expected_data_len(op, rom_loader) == 4,
{
}

/// Whether `op` is an opcode of the table.
pub fn is_known_opcode(op: u8) -> (r: bool)
    ensures
        r == known_opcode(op),
{
    (0x02 <= op && op <= 0x0B) || op == 0x0D || (0x0F <= op && op <= 0x13) || (0xD0 <= op && op
        <= 0xD3)
}

/// Parse a raw response frame.
///
/// The status-trailer width is derived from the opcode table when the
/// opcode echo is known (every opcode of the table has a fixed expected
/// data length) and from `cached_status_width` otherwise; with neither
/// available the frame is refused with `StatusWidthUnknown`, telling the
/// caller to identify the chip first.
pub fn parse_response(frame: &[u8], rom_loader: bool, cached_status_width: Option<u8>) -> (r:
    Result<ResponsePacket, Error>)
    ensures
        ({
            let s = frame@;
            match r {
                Ok(p) => {
                    &&& resp_header_ok(s)
                    &&& status_width_of(s[1], rom_loader, cached_status_width, resp_len(s))
                        matches Some(w)
                    &&& p.cmd_code == s[1]
                    &&& p.value == resp_value(s)
                    &&& p.data@ == s.subrange(8, 8 + resp_len(s) - status_width_of(
                        s[1],
                        rom_loader,
                        cached_status_width,
                        resp_len(s),
                    ).unwrap())
                    &&& p.status == s[8 + resp_len(s) - status_width_of(
                        s[1],
                        rom_loader,
                        cached_status_width,
                        resp_len(s),
                    ).unwrap()]
                    &&& p.error == s[9 + resp_len(s) - status_width_of(
                        s[1],
                        rom_loader,
                        cached_status_width,
                        resp_len(s),
                    ).unwrap()]
                    &&& (p.reserved is Some <==> status_width_of(
                        s[1],
                        rom_loader,
                        cached_status_width,
                        resp_len(s),
                    ) == Some(4int))
                },
                Err(e) => {
                    &&& !(resp_header_ok(s) && status_width_of(
                        s[1],
                        rom_loader,
                        cached_status_width,
                        resp_len(s),
                    ) is Some)
                    &&& e == if !resp_header_ok(s) {
                        Error::Format(FormatError::InvalidResponseHeader)
                    } else if !known_opcode(s[1]) && cached_status_width is None {
                        Error::Protocol(ProtocolError::StatusWidthUnknown)
                    } else {
                        Error::Format(FormatError::InvalidResponseHeader)
                    }
                },
            }
        }),
{
    let n = frame.len();
    if n < 10 || frame[0] != 1 {
        return Err(Error::Format(FormatError::InvalidResponseHeader));
    }
    let op = frame[1];
    let l: usize = frame[2] as usize + 0x100 * (frame[3] as usize);
    if n != 8 + l || l < 2 {
        return Err(Error::Format(FormatError::InvalidResponseHeader));
    }
    let value: u32 = frame[4] as u32 + 0x100 * frame[5] as u32 + 0x10000 * frame[6] as u32
        + 0x1000000 * frame[7] as u32;
    let w: usize = if is_known_opcode(op) {
        let e: usize = if op == 0x13 {
            if rom_loader {
                32
            } else {
                16
            }
        } else {
            0
        };
        if l >= e && (l - e == 2 || l - e == 4) {
            l - e
        } else {
            return Err(Error::Format(FormatError::InvalidResponseHeader));
        }
    } else {
        match cached_status_width {
            None => {
                return Err(Error::Protocol(ProtocolError::StatusWidthUnknown));
            },
            Some(cw) => {
                if (cw == 2 || cw == 4) && l >= cw as usize {
                    cw as usize
                } else {
                    return Err(Error::Format(FormatError::InvalidResponseHeader));
                }
            },
        }
    };
    let data_len = l - w;
    let mut data: Vec<u8> = Vec::new();
    let mut i: usize = 0;
    proof {
        assert(frame@.subrange(8, 8) =~= Seq::<u8>::empty());
    }
    while i < data_len
        invariant
            i <= data_len,
            8 + data_len + w == n,
            w >= 2,
            n == frame@.len(),
            data@ == frame@.subrange(8, 8 + i as int),
        decreases data_len - i,
    {
        data.push(frame[8 + i]);
        i = i + 1;
        proof {
            assert(frame@.subrange(8, 8 + i as int) =~= frame@.subrange(
                8,
                8 + i as int - 1,
            ).push(frame@[8 + i as int - 1]));
        }
    }
    let status = frame[8 + data_len];
    let error = frame[8 + data_len + 1];
    let reserved: Option<[u8; 2]> = if w == 4 {
        Some([frame[8 + data_len + 2], frame[8 + data_len + 3]])
    } else {
        None
    };
    Ok(ResponsePacket { cmd_code: op, value, data, status, error, reserved })
}

/// Encode a response frame, as a target would: direction 1, opcode echo,
/// body length, value, data, then a status trailer of 2 bytes or, when
/// `wide_trailer` is set, 4 bytes (status, error, 0, 0).
pub open spec fn response_bytes(
    cmd_code: u8,
    value: u32,
    data: Seq<u8>,
    status: u8,
    error: u8,
    wide_trailer: bool,
) -> Seq<u8> {
    seq![1u8, cmd_code] + le16_bytes((data.len() + if wide_trailer { 4int } else { 2int }) as u16)
        + le32_bytes(value) + data + seq![status, error] + if wide_trailer {
        seq![0u8, 0u8]
    } else {
        Seq::empty()
    }
}

/// Build a response frame; the test double of the target's sender.
pub fn encode_response(
    cmd_code: u8,
    value: u32,
    data: &[u8],
    status: u8,
    error: u8,
    wide_trailer: bool,
) -> (r: Vec<u8>)
    requires
        data@.len() + 4 <= 0xFFFF,
    ensures
        r@ == response_bytes(cmd_code, value, data@, status, error, wide_trailer),
{
    let mut out: Vec<u8> = Vec::new();
    out.push(1);
    out.push(cmd_code);
    let trailer: usize = if wide_trailer {
        4
    } else {
        2
    };
    push_le16(&mut out, (data.len() + trailer) as u16);
    push_le32(&mut out, value);
    let mut dv = slice_to_vec(data);
    out.append(&mut dv);
    out.push(status);
    out.push(error);
    if wide_trailer {
        out.push(0);
        out.push(0);
    }
    proof {
        assert(out@ =~= response_bytes(cmd_code, value, data@, status, error, wide_trailer));
    }
    out
}

/// Encoding a response frame and parsing it back yields the same tuple:
/// for an opcode of the table whose data has the expected length, and
/// for a reserved opcode under a cached width that matches the trailer,
/// the frame is well-formed, its derived trailer width is the encoder's,
/// and opcode echo, value, data, status and error read back unchanged.
/// Together with the contract of `parse_response` this pins the
/// encode/decode round trip.
pub proof fn lemma_response_round_trip(
    cmd_code: u8,
    value: u32,
    data: Seq<u8>,
    status: u8,
    error: u8,
    wide_trailer: bool,
    rom_loader: bool,
    cached: Option<u8>,
)
    requires
        data.len() + 4 <= 0xFFFF,
        known_opcode(cmd_code) ==> data.len() == expected_data_len(cmd_code, rom_loader),
        !known_opcode(cmd_code) ==> cached == Some(
            if wide_trailer {
                4u8
            } else {
                2u8
            },
        ),
    ensures
        ({
            let s = response_bytes(cmd_code, value, data, status, error, wide_trailer);
            let w: int = if wide_trailer {
                4
            } else {
                2
            };
            &&& resp_header_ok(s)
            &&& resp_len(s) == data.len() + w
            &&& status_width_of(s[1], rom_loader, cached, resp_len(s)) == Some(w)
            &&& s[1] == cmd_code
            &&& resp_value(s) == value
            &&& s.subrange(8, 8 + data.len() as int) == data
            &&& s[8 + data.len() as int] == status
            &&& s[9 + data.len() as int] == error
        }),
{
    let s = response_bytes(cmd_code, value, data, status, error, wide_trailer);
    let w: int = if wide_trailer {
        4
    } else {
        2
    };
    let l: u16 = (data.len() + w) as u16;
    assert(s.len() == 8 + data.len() + w);
    assert(s.subrange(0, 2) =~= seq![1u8, cmd_code]);
    assert(s[0] == s.subrange(0, 2)[0] && s[1] == s.subrange(0, 2)[1]);
    assert((l & 0xFF) + 0x100 * ((l >> 8) & 0xFF) == l && (l & 0xFF) < 0x100 && ((l >> 8) & 0xFF)
        < 0x100) by (bit_vector);
    assert(s.subrange(2, 4) =~= le16_bytes(l));
    assert(s[2] == s.subrange(2, 4)[0] && s[3] == s.subrange(2, 4)[1]);
    assert(le16_bytes(l)[0] == (l & 0xFF) as u8 && le16_bytes(l)[1] == ((l >> 8) & 0xFF) as u8);
    assert((value & 0xFF) + 0x100 * ((value >> 8) & 0xFF) + 0x10000 * ((value >> 16) & 0xFF)
        + 0x1000000 * ((value >> 24) & 0xFF) == value && (value & 0xFF) < 0x100 && ((value >> 8)
        & 0xFF) < 0x100 && ((value >> 16) & 0xFF) < 0x100 && ((value >> 24) & 0xFF) < 0x100)
        by (bit_vector);
    assert(s.subrange(4, 8) =~= le32_bytes(value));
    assert(s[4] == s.subrange(4, 8)[0] && s[5] == s.subrange(4, 8)[1] && s[6] == s.subrange(
        4,
        8,
    )[2] && s[7] == s.subrange(4, 8)[3]);
    assert(le32_bytes(value)[0] == (value & 0xFF) as u8 && le32_bytes(value)[1] == ((value >> 8)
        & 0xFF) as u8 && le32_bytes(value)[2] == ((value >> 16) & 0xFF) as u8 && le32_bytes(
        value,
    )[3] == ((value >> 24) & 0xFF) as u8);
    assert(s.subrange(8, 8 + data.len() as int) =~= data);
    assert(s[8 + data.len() as int] == status);
    assert(s[9 + data.len() as int] == error);
}

/// The smaller of two words.
pub open spec fn min_u32(a: u32, b: u32) -> u32 {
    if a < b {
        a
    } else {
        b
    }
}

/// `total` divided by `packet`, rounded up.
fn div_ceil(total: u32, packet: u32) -> (r: u32)
    requires
        1 <= total,
        1 <= packet,
    ensures
        r * packet >= total,
        (r - 1) * packet < total,
{
    let q = (total - 1) / packet;
    proof {
        vstd::arithmetic::div_mod::lemma_fundamental_div_mod((total - 1) as int, packet as int);
        assert(q <= packet * q) by (nonlinear_arith)
            requires
                q >= 0,
                packet >= 1,
        ;
        assert((q + 1) * packet == packet * q + packet) by (nonlinear_arith);
        assert(q * packet == packet * q) by (nonlinear_arith);
    }
    q + 1
}

} // verus!
