//! The flasher facade's logic: the session state (identified chip, peer
//! mode, SPI-attached flag) with its transitions, and the plans for the
//! multi-command operations—SPI-controller transactions, RAM uploads,
//! flash uploads (plain or DEFLATE-compressed) and stub activation.
//!
//! Each plan is pure: it turns the operation's arguments into the exact
//! commands and payloads to send.  The unverified I/O layer executes the
//! plan and reports the outcomes back through the transition methods,
//! which enforce the session's flag discipline: the peer-mode flag flips
//! to "stub" only on the literal `OHAI` greeting, and every reset returns
//! it to "ROM".

use std::io::Write;

use vstd::prelude::*;
use vstd::slice::{slice_subrange, slice_to_vec};

use crate::chip::{Chip, SpiRegs};
use crate::command::{min_u32, Command};
use crate::stub::{le32_at, parse_stub, stub_chip_spec, stub_wf, Stub};
use crate::{Error, FlasherError, FormatError, ProtocolError};

verus! {

/// RAM-upload packet ceiling against the ROM loader.
pub const ROM_MEM_PACKET_SIZE: u32 = 0x4000;

/// RAM-upload packet ceiling against the stub.
pub const STUB_MEM_PACKET_SIZE: u32 = 0x1800;

/// One flash sector; flash offsets must be aligned to it.
pub const FLASH_SECTOR_SIZE: u32 = 0x1000;

/// Flash-upload packet size against the ROM loader.
pub const ROM_FLASH_PACKET_SIZE: u32 = 0x400;

/// Flash-upload packet size against the stub.
pub const STUB_FLASH_PACKET_SIZE: u32 = 0x4000;

/// The greeting the freshly started stub sends in its first SLIP frame.
pub open spec fn stub_hello() -> Seq<u8> {
    seq![0x4Fu8, 0x48, 0x41, 0x49]
}

/// The session state of the flasher facade.
///
/// `rom_loader` is the peer-mode flag: whether the responder is the ROM
/// loader (true) or the uploaded stub.  `attached` records a successful
/// SPI attach.  `chip` is the identified chip, if any.
#[derive(Clone, Copy, Debug, PartialEq, Eq, Structural)]
pub struct Flasher {
    pub chip: Option<Chip>,
    pub rom_loader: bool,
    pub attached: bool,
}

impl Flasher {
    /// A fresh session: no chip identified, ROM peer, not attached.
    pub fn new() -> (r: Flasher)
        ensures
            r.chip is None,
            r.rom_loader,
            !r.attached,
    {
        Flasher { chip: None, rom_loader: true, attached: false }
    }

    /// Whether the peer is the ROM loader.
    pub fn is_rom_loader(&self) -> (r: bool)
        ensures
            r == self.rom_loader,
    {
        self.rom_loader
    }

    /// Set the peer-mode flag directly.
    pub fn set_rom_loader(&mut self, rom_loader: bool)
        ensures
            *final(self) == (Flasher { rom_loader, ..*old(self) }),
    {
        self.rom_loader = rom_loader;
    }

    /// The identified chip.
    pub fn chip(&self) -> (r: Option<Chip>)
        ensures
            r == self.chip,
    {
        self.chip
    }

    /// Note a completed reset: any reset returns the peer to the ROM
    /// loader, detaches, and forgets the chip.
    pub fn reset(&mut self)
        ensures
            final(self).rom_loader,
            !final(self).attached,
            final(self).chip is None,
    {
        self.chip = None;
        self.rom_loader = true;
        self.attached = false;
    }

    /// Record the magic-register value read at 0x40001000: a known magic
    /// identifies the chip, an unknown one fails with `UnknownDevice`.
    pub fn identify(&mut self, magic: u32) -> (r: Result<Chip, Error>)
        ensures
            final(self).rom_loader == old(self).rom_loader,
            final(self).attached == old(self).attached,
            match crate::chip::chip_of_magic(magic) {
                Some(c) => r == Ok::<Chip, Error>(c) && final(self).chip == Some(c),
                None => r == Err::<Chip, Error>(Error::Usage(FlasherError::UnknownDevice(magic)))
                    && final(self).chip is None,
            },
    {
        match Chip::try_from_magic(magic) {
            Some(c) => {
                self.chip = Some(c);
                Ok(c)
            },
            None => {
                self.chip = None;
                Err(Error::Usage(FlasherError::UnknownDevice(magic)))
            },
        }
    }

    /// The command that attaches the SPI flash: on the ESP8266 a
    /// FlashBegin(0,0,0,0) doubles as the attach; on every other chip a
    /// SpiAttach with pins 0.
    pub fn attach_command(&self) -> (r: Command)
        requires
            self.chip is Some,
        ensures
            r == if self.chip == Some(Chip::Esp8266) {
                Command::FlashBegin {
                    total_size: 0u32,
                    num_packets: 0u32,
                    packet_size: 0u32,
                    flash_offset: 0u32,
                }
            } else {
                Command::SpiAttach { pins: 0u32, rom_only: 0u32 }
            },
    {
        match self.chip {
            Some(Chip::Esp8266) => Command::FlashBegin {
                total_size: 0,
                num_packets: 0,
                packet_size: 0,
                flash_offset: 0,
            },
            _ => Command::SpiAttach { pins: 0, rom_only: 0 },
        }
    }

    /// Note that the attach command succeeded: the session is attached.
    pub fn on_attach_success(&mut self)
        ensures
            *final(self) == (Flasher { attached: true, ..*old(self) }),
    {
        self.attached = true;
    }

    /// Check the first SLIP frame after stub activation: exactly `OHAI`
    /// flips the peer mode to "stub"; anything else leaves the session
    /// unchanged and fails.
    pub fn on_stub_hello(&mut self, frame: &[u8]) -> (r: Result<(), Error>)
        ensures
            if frame@ == stub_hello() {
                r == Ok::<(), Error>(()) && *final(self) == (Flasher {
                    rom_loader: false,
                    ..*old(self)
                })
            } else {
                r == Err::<(), Error>(Error::Protocol(ProtocolError::StubHelloMissing))
                    && *final(self) == *old(self)
            },
    {
        if frame.len() == 4 && frame[0] == 0x4F && frame[1] == 0x48 && frame[2] == 0x41
            && frame[3] == 0x49 {
            proof {
                assert(frame@ =~= stub_hello());
            }
            self.rom_loader = false;
            Ok(())
        } else {
            proof {
                assert(frame@ != stub_hello());
            }
            Err(Error::Protocol(ProtocolError::StubHelloMissing))
        }
    }

    /// Whether a timeout of the final MemEnd is expected and must be
    /// swallowed: the ROM loader may jump to the entry point before its
    /// acknowledgement leaves the FIFO.
    pub fn mem_end_timeout_tolerated(&self) -> (r: bool)
        ensures
            r == self.rom_loader,
    {
        self.rom_loader
    }

    /// The status-trailer width the session knows, for responses whose
    /// opcode is not in the table: 2 bytes for the stub and the ESP8266
    /// ROM, 4 bytes for an identified ESP32-family ROM, and unknown
    /// before identification.
    pub fn cached_status_width(&self) -> (r: Option<u8>)
        ensures
            r == if !self.rom_loader {
                Some(2u8)
            } else if self.chip == Some(Chip::Esp8266) {
                Some(2u8)
            } else if self.chip is Some {
                Some(4u8)
            } else {
                None::<u8>
            },
    {
        if !self.rom_loader {
            Some(2)
        } else {
            match self.chip {
                Some(Chip::Esp8266) => Some(2),
                Some(_) => Some(4),
                None => None,
            }
        }
    }
}

/// The deadline for an MD5 command over `size` bytes of flash: the
/// 3-second default, raised by a second per half megabyte hashed and
/// capped at 30 seconds.
pub fn md5_timeout_ms(size: u32) -> (r: u64)
    ensures
        3000 <= r <= 30000,
        r == ({
            let scaled = 3000 + 1000 * ((size as int) / 0x80000);
            if scaled > 30000 {
                30000int
            } else {
                scaled
            }
        }),
{
    let scaled: u64 = 3000 + 1000 * ((size as u64) / 0x80000);
    if scaled > 30000 {
        30000
    } else {
        scaled
    }
}

// ---------------------------------------------------------------------------
// SPI-controller transactions
// ---------------------------------------------------------------------------

/// Start bit of the SPI cmd register.
pub const SPI_USR: u32 = 1u32 << 18;

/// user-register bit: transaction has a command phase.
pub const SPI_USR_COMMAND: u32 = 1u32 << 31;

/// user-register bit: transaction has an address phase.
pub const SPI_USR_ADDR: u32 = 1u32 << 30;

/// user-register bit: transaction has dummy cycles.
pub const SPI_USR_DUMMY: u32 = 1u32 << 29;

/// user-register bit: transaction reads MISO data.
pub const SPI_USR_MISO: u32 = 1u32 << 28;

/// user-register bit: transaction writes MOSI data.
pub const SPI_USR_MOSI: u32 = 1u32 << 27;

/// The operand limits of a SPI transaction: a 1- or 2-byte opcode, an
/// address of up to 4 bytes, up to 255 dummy cycles, and at most 64
/// bytes each of MOSI and MISO data.
pub open spec fn spi_valid(
    command_len: u32,
    address_len: u32,
    dummy_cycles: u32,
    data_len: nat,
    output_len: nat,
) -> bool {
    &&& command_len == 1 || command_len == 2
    &&& address_len <= 4
    &&& dummy_cycles <= 255
    &&& data_len <= 64
    &&& output_len <= 64
}

/// The two low bytes of `v`, swapped.
pub open spec fn swap16(v: u32) -> u32 {
    ((v & 0xFF) << 8) | ((v >> 8) & 0xFF)
}

/// The address byte-swapped to the wire's MSB-first form, over its
/// 1-, 2-, 3- or 4-byte width.
pub open spec fn addr_swapped(address: u32, address_len: u32) -> u32 {
    if address_len == 1 {
        address
    } else if address_len == 2 {
        swap16(address)
    } else if address_len == 3 {
        ((address & 0xFF0000) >> 16) | (address & 0x00FF00) | ((address & 0x0000FF) << 16)
    } else {
        ((address & 0xFF) << 24) | (((address >> 8) & 0xFF) << 16) | (((address >> 16) & 0xFF)
            << 8) | ((address >> 24) & 0xFF)
    }
}

/// The user2 register value: command bit length minus one in the top
/// nibble, the opcode (byte-swapped when two bytes wide) below.
pub open spec fn spi_user2_value(command: u16, command_len: u32) -> u32 {
    let bits: u32 = if command_len == 1 {
        7
    } else {
        15
    };
    let cmd_val: u32 = if command_len == 1 {
        command as u32
    } else {
        swap16(command as u32)
    };
    (bits << 28) | cmd_val
}

/// The user register value: one enable bit per phase.
pub open spec fn spi_user_value(
    address_len: u32,
    dummy_cycles: u32,
    data_len: nat,
    output_len: nat,
) -> u32 {
    SPI_USR_COMMAND | (if address_len > 0 {
        SPI_USR_ADDR
    } else {
        0
    }) | (if dummy_cycles > 0 {
        SPI_USR_DUMMY
    } else {
        0
    }) | (if data_len > 0 {
        SPI_USR_MOSI
    } else {
        0
    }) | (if output_len > 0 {
        SPI_USR_MISO
    } else {
        0
    })
}

/// The user1 register value: address bit length, dummy count, and—on
/// the ESP8266, which has no dlen registers—the MOSI and MISO bit
/// lengths as bitfields.
pub open spec fn spi_user1_value(
    is_8266: bool,
    address_len: u32,
    dummy_cycles: u32,
    data_len: nat,
    output_len: nat,
) -> u32 {
    (if address_len > 0 {
        (((address_len * 8 - 1) as u32) << 26) as u32
    } else {
        0u32
    }) | (if dummy_cycles > 0 {
        (dummy_cycles - 1) as u32
    } else {
        0u32
    }) | (if is_8266 && data_len > 0 {
        (((data_len * 8 - 1) as u32) << 17) as u32
    } else {
        0u32
    }) | (if is_8266 && output_len > 0 {
        (((output_len * 8 - 1) as u32) << 8) as u32
    } else {
        0u32
    })
}

/// The user2 register value, executable.
fn user2_value_x(command: u16, command_len: u32) -> (r: u32)
    requires
        command_len == 1 || command_len == 2,
    ensures
        r == spi_user2_value(command, command_len),
{
    let bits: u32 = if command_len == 1 {
        7
    } else {
        15
    };
    let cmd_val: u32 = if command_len == 1 {
        command as u32
    } else {
        ((command as u32 & 0xFF) << 8u32) | ((command as u32 >> 8u32) & 0xFF)
    };
    (bits << 28u32) | cmd_val
}

/// The byte-swapped address, executable.
fn addr_swapped_x(address: u32, address_len: u32) -> (r: u32)
    requires
        1 <= address_len <= 4,
    ensures
        r == addr_swapped(address, address_len),
{
    if address_len == 1 {
        address
    } else if address_len == 2 {
        ((address & 0xFF) << 8u32) | ((address >> 8u32) & 0xFF)
    } else if address_len == 3 {
        ((address & 0xFF0000) >> 16u32) | (address & 0x00FF00) | ((address & 0x0000FF) << 16u32)
    } else {
        ((address & 0xFF) << 24u32) | (((address >> 8u32) & 0xFF) << 16u32) | (((address >> 16u32)
            & 0xFF) << 8u32) | ((address >> 24u32) & 0xFF)
    }
}

/// The user1 register value, executable.
fn user1_value_x(
    is_8266: bool,
    address_len: u32,
    dummy_cycles: u32,
    data_len: usize,
    output_len: usize,
) -> (r: u32)
    requires
        address_len <= 4,
        dummy_cycles <= 255,
        data_len <= 64,
        output_len <= 64,
    ensures
        r == spi_user1_value(is_8266, address_len, dummy_cycles, data_len as nat,
            output_len as nat),
{
    (if address_len > 0 {
        (address_len * 8 - 1) << 26u32
    } else {
        0
    }) | (if dummy_cycles > 0 {
        dummy_cycles - 1
    } else {
        0
    }) | (if is_8266 && data_len > 0 {
        ((data_len * 8 - 1) as u32) << 17u32
    } else {
        0
    }) | (if is_8266 && output_len > 0 {
        ((output_len * 8 - 1) as u32) << 8u32
    } else {
        0
    })
}

/// The user register value, executable.
fn user_value_x(address_len: u32, dummy_cycles: u32, data_len: usize, output_len: usize) -> (r:
    u32)
    ensures
        r == spi_user_value(address_len, dummy_cycles, data_len as nat, output_len as nat),
{
    SPI_USR_COMMAND | (if address_len > 0 {
        SPI_USR_ADDR
    } else {
        0
    }) | (if dummy_cycles > 0 {
        SPI_USR_DUMMY
    } else {
        0
    }) | (if data_len > 0 {
        SPI_USR_MOSI
    } else {
        0
    }) | (if output_len > 0 {
        SPI_USR_MISO
    } else {
        0
    })
}

/// The writes that load the MOSI bytes into the data registers, four
/// bytes per register, little-endian.
pub open spec fn w_writes(regs: SpiRegs, data: Seq<u8>) -> Seq<(u32, u32)> {
    Seq::new(
        chunk_count(data.len(), 4),
        |i: int| (((regs.w0 + 4 * i) as u32), (crate::le_val(chunk_at(data, 4, i as nat)) as u32)),
    )
}

/// The ordered register writes that synthesise one SPI transaction:
/// user2, the address register, the MOSI length and data registers, the
/// MISO length register, then user1, user, and the start bit in cmd.
pub open spec fn spi_write_sequence(
    chip: Chip,
    command: u16,
    command_len: u32,
    address: u32,
    address_len: u32,
    dummy_cycles: u32,
    data: Seq<u8>,
    output_len: nat,
) -> Seq<(u32, u32)> {
    let regs = chip.spi_regs_spec();
    seq![(regs.user2, spi_user2_value(command, command_len))] + (if address_len > 0 {
        seq![(regs.addr, addr_swapped(address, address_len))]
    } else {
        Seq::empty()
    }) + (if data.len() > 0 && chip != Chip::Esp8266 {
        seq![(regs.mosi_dlen, ((data.len() * 8 - 1) as u32))]
    } else {
        Seq::empty()
    }) + (if data.len() > 0 {
        w_writes(regs, data)
    } else {
        Seq::empty()
    }) + (if output_len > 0 && chip != Chip::Esp8266 {
        seq![(regs.miso_dlen, ((output_len * 8 - 1) as u32))]
    } else {
        Seq::empty()
    }) + seq![
        (
            regs.user1,
            spi_user1_value(
                chip == Chip::Esp8266,
                address_len,
                dummy_cycles,
                data.len(),
                output_len,
            ),
        ),
        (regs.user, spi_user_value(address_len, dummy_cycles, data.len(), output_len)),
        (regs.cmd, SPI_USR),
    ]
}

/// A synthesised SPI transaction: the register writes to perform in
/// order, the register to poll until the start bit clears, and the data
/// registers to read the MISO bytes back from.
pub struct SpiPlan {
    pub writes: Vec<(u32, u32)>,
    pub poll_addr: u32,
    pub read_addrs: Vec<u32>,
}

/// Whether a polled cmd-register value says the transaction finished:
/// the start bit has cleared.
pub fn spi_poll_done(cmd_value: u32) -> (r: bool)
    ensures
        r == ((cmd_value & SPI_USR) == 0),
{
    cmd_value & SPI_USR == 0
}

/// Extract `output_len` MISO bytes from the data-register words,
/// little-endian.
pub fn spi_collect_output(words: &[u32], output_len: usize) -> (r: Vec<u8>)
    requires
        4 * words@.len() >= output_len,
    ensures
        r@.len() == output_len,
        forall|i: int|
            0 <= i < output_len ==> r@[i] == ((words@[i / 4] >> ((8 * (i % 4)) as u32))
                & 0xFF) as u8,
{
    let mut out: Vec<u8> = Vec::new();
    let mut i: usize = 0;
    while i < output_len
        invariant
            i <= output_len,
            4 * words@.len() >= output_len,
            out@.len() == i,
            forall|m: int|
                0 <= m < i ==> out@[m] == ((words@[m / 4] >> ((8 * (m % 4)) as u32))
                    & 0xFF) as u8,
        decreases output_len - i,
    {
        proof {
            vstd::arithmetic::div_mod::lemma_fundamental_div_mod(i as int, 4);
        }
        let w = words[i / 4];
        let sh: u32 = (8 * (i % 4)) as u32;
        out.push(((w >> sh) & 0xFF) as u8);
        i = i + 1;
    }
    out
}

/// The manufacturer byte and big-endian device id of a flash-id
/// transaction's three MISO bytes.
pub fn flash_id_result(output: &[u8]) -> (r: (u8, u16))
    requires
        output@.len() == 3,
    ensures
        r.0 == output@[0],
        r.1 == 0x100 * output@[1] + output@[2],
{
    (output[0], 0x100 * output[1] as u16 + output[2] as u16)
}

/// The loads of the MOSI data registers, executable.
fn w_register_writes(w0: u32, data: &[u8]) -> (r: Vec<(u32, u32)>)
    requires
        w0 + 60 <= u32::MAX,
        data@.len() <= 64,
    ensures
        r@.len() == chunk_count(data@.len(), 4),
        forall|i: int|
            0 <= i < r@.len() ==> r@[i] == (((w0 + 4 * i) as u32), (crate::le_val(
                chunk_at(data@, 4, i as nat),
            ) as u32)),
{
    let n = data.len();
    let count = (n + 3) / 4;
    proof {
        vstd::arithmetic::div_mod::lemma_fundamental_div_mod((n + 3) as int, 4);
    }
    let mut out: Vec<(u32, u32)> = Vec::new();
    let mut idx: usize = 0;
    while idx < count
        invariant
            n == data@.len() <= 64,
            idx <= count,
            count == chunk_count(n as nat, 4),
            4 * count >= n,
            4 * count <= n + 3,
            w0 + 60 <= u32::MAX,
            out@.len() == idx,
            forall|i: int|
                0 <= i < idx ==> out@[i] == (((w0 + 4 * i) as u32), (crate::le_val(
                    chunk_at(data@, 4, i as nat),
                ) as u32)),
        decreases count - idx,
    {
        let start = 4 * idx;
        let end = if start + 4 <= n {
            start + 4
        } else {
            n
        };
        let piece = slice_subrange(data, start, end);
        let val = crate::from_le(piece);
        proof {
            crate::lemma_le_val_bound(piece@);
            assert(crate::pow256(0) == 1);
            assert(crate::pow256(1) == 0x100);
            assert(crate::pow256(2) == 0x10000);
            assert(crate::pow256(3) == 0x1000000);
            assert(crate::pow256(4) == 0x100000000);
            assert(piece@ =~= chunk_at(data@, 4, idx as nat));
        }
        out.push((w0 + (4 * idx) as u32, val));
        idx = idx + 1;
    }
    out
}

/// The addresses of the data registers holding `output_len` MISO bytes.
fn w_register_reads(w0: u32, output_len: usize) -> (r: Vec<u32>)
    requires
        w0 + 60 <= u32::MAX,
        output_len <= 64,
    ensures
        r@ == Seq::new(chunk_count(output_len as nat, 4), |i: int| (w0 + 4 * i) as u32),
{
    let count = (output_len + 3) / 4;
    proof {
        vstd::arithmetic::div_mod::lemma_fundamental_div_mod((output_len + 3) as int, 4);
    }
    let mut out: Vec<u32> = Vec::new();
    let mut idx: usize = 0;
    while idx < count
        invariant
            idx <= count,
            count == chunk_count(output_len as nat, 4),
            count <= 16,
            w0 + 60 <= u32::MAX,
            out@.len() == idx,
            forall|i: int| 0 <= i < idx ==> out@[i] == (w0 + 4 * i) as u32,
        decreases count - idx,
    {
        out.push(w0 + (4 * idx) as u32);
        idx = idx + 1;
    }
    proof {
        assert(out@ =~= Seq::new(chunk_count(output_len as nat, 4), |i: int| (w0 + 4 * i) as u32));
    }
    out
}

impl Flasher {
    /// Synthesise one external-SPI transaction as register writes on the
    /// identified chip's SPI controller, per the operand limits;
    /// out-of-range shapes are refused with `InvalidSpiCommand`.
    #[verifier::rlimit(100)]
    pub fn spi_command_plan(
        &self,
        command: u16,
        command_len: u32,
        address: u32,
        address_len: u32,
        dummy_cycles: u32,
        data: &[u8],
        output_len: usize,
    ) -> (r: Result<SpiPlan, Error>)
        requires
            self.chip is Some,
        ensures
            r is Ok <==> spi_valid(
                command_len,
                address_len,
                dummy_cycles,
                data@.len(),
                output_len as nat,
            ),
            r matches Ok(p) ==> ({
                let chip = self.chip.unwrap();
                &&& p.writes@ == spi_write_sequence(
                    chip,
                    command,
                    command_len,
                    address,
                    address_len,
                    dummy_cycles,
                    data@,
                    output_len as nat,
                )
                &&& p.poll_addr == chip.spi_regs_spec().cmd
                &&& p.read_addrs@ == Seq::new(
                    chunk_count(output_len as nat, 4),
                    |i: int| (chip.spi_regs_spec().w0 + 4 * i) as u32,
                )
            }),
            r matches Err(e) ==> e == Error::Usage(FlasherError::InvalidSpiCommand),
    {
        if !(command_len == 1 || command_len == 2) || address_len > 4 || dummy_cycles > 255
            || data.len() > 64 || output_len > 64 {
            return Err(Error::Usage(FlasherError::InvalidSpiCommand));
        }
        let chip = match self.chip {
            Some(c) => c,
            None => {
                return Err(Error::Usage(FlasherError::InvalidSpiCommand));
            },
        };
        let regs = chip.spi_regs();
        let is_8266 = matches!(chip, Chip::Esp8266);
        let mut writes: Vec<(u32, u32)> = Vec::new();

        let ghost s_user2 = seq![(regs.user2, spi_user2_value(command, command_len))];
        let ghost s_addr = if address_len > 0 {
            seq![(regs.addr, addr_swapped(address, address_len))]
        } else {
            Seq::<(u32, u32)>::empty()
        };
        let ghost s_modlen = if data@.len() > 0 && chip != Chip::Esp8266 {
            seq![(regs.mosi_dlen, ((data@.len() * 8 - 1) as u32))]
        } else {
            Seq::<(u32, u32)>::empty()
        };
        let ghost s_wdata = if data@.len() > 0 {
            w_writes(regs, data@)
        } else {
            Seq::<(u32, u32)>::empty()
        };
        let ghost s_midlen = if output_len as nat > 0 && chip != Chip::Esp8266 {
            seq![(regs.miso_dlen, ((output_len * 8 - 1) as u32))]
        } else {
            Seq::<(u32, u32)>::empty()
        };

        writes.push((regs.user2, user2_value_x(command, command_len)));
        if address_len > 0 {
            writes.push((regs.addr, addr_swapped_x(address, address_len)));
        }
        if data.len() > 0 && !is_8266 {
            writes.push((regs.mosi_dlen, (data.len() * 8 - 1) as u32));
        }
        proof {
            assert(writes@ =~= s_user2 + s_addr + s_modlen);
        }
        if data.len() > 0 {
            let mut wv = w_register_writes(regs.w0, data);
            proof {
                assert(wv@ =~= w_writes(regs, data@));
            }
            writes.append(&mut wv);
        }
        if output_len > 0 && !is_8266 {
            writes.push((regs.miso_dlen, (output_len * 8 - 1) as u32));
        }
        proof {
            assert(writes@ =~= s_user2 + s_addr + s_modlen + s_wdata + s_midlen);
        }
        let dlen = data.len();
        writes.push(
            (regs.user1, user1_value_x(is_8266, address_len, dummy_cycles, dlen, output_len)),
        );
        writes.push((regs.user, user_value_x(address_len, dummy_cycles, dlen, output_len)));
        writes.push((regs.cmd, SPI_USR));
        proof {
            assert(writes@ =~= spi_write_sequence(
                self.chip.unwrap(),
                command,
                command_len,
                address,
                address_len,
                dummy_cycles,
                data@,
                output_len as nat,
            ));
        }
        let read_addrs = w_register_reads(regs.w0, output_len);
        Ok(SpiPlan { writes, poll_addr: regs.cmd, read_addrs })
    }

    /// The flash-id transaction: opcode 0x9F, no address, no dummy
    /// cycles, three MISO bytes.
    pub fn flash_id_plan(&self) -> (r: Result<SpiPlan, Error>)
        requires
            self.chip is Some,
        ensures
            r matches Ok(p) ==> ({
                let chip = self.chip.unwrap();
                &&& p.writes@ == spi_write_sequence(chip, 0x9F, 1, 0, 0, 0, Seq::empty(), 3)
                &&& p.poll_addr == chip.spi_regs_spec().cmd
                &&& p.read_addrs@ == Seq::new(1, |i: int| (chip.spi_regs_spec().w0 + 4 * i) as u32)
            }),
            r is Ok,
    {
        let empty: Vec<u8> = Vec::new();
        let r = self.spi_command_plan(0x9F, 1, 0, 0, 0, empty.as_slice(), 3);
        proof {
            assert(chunk_count(3, 4) == 1);
        }
        r
    }
}

// ---------------------------------------------------------------------------
// Padding and chunking
// ---------------------------------------------------------------------------

/// `len` rounded up to the next multiple of four.
pub open spec fn pad4_len(len: nat) -> nat {
    ((len + 3) / 4) * 4
}

/// The payload with 0xFF padding to the next multiple of four.
pub open spec fn padded4(s: Seq<u8>) -> Seq<u8> {
    s + Seq::new((pad4_len(s.len()) - s.len()) as nat, |i: int| 0xFFu8)
}

/// How many packets of size `ps` cover `len` bytes.
pub open spec fn chunk_count(len: nat, ps: nat) -> nat
    recommends
        ps >= 1,
{
    ((len + ps - 1) / (ps as int)) as nat
}

/// The `i`-th packet-sized slice of `s`; the last one may be short.
pub open spec fn chunk_at(s: Seq<u8>, ps: nat, i: nat) -> Seq<u8> {
    s.subrange(
        (i * ps) as int,
        if (i + 1) * ps <= s.len() {
            ((i + 1) * ps) as int
        } else {
            s.len() as int
        },
    )
}

/// The `i`-th slice, 0xFF-padded to the full packet size.
pub open spec fn chunk_padded(s: Seq<u8>, ps: nat, i: nat) -> Seq<u8> {
    chunk_at(s, ps, i) + Seq::new((ps - chunk_at(s, ps, i).len()) as nat, |j: int| 0xFFu8)
}

/// A count `c` with `c*ps` covering `len` but `(c-1)*ps` short of it is
/// the packet count.
proof fn lemma_chunk_count_unique(len: nat, ps: nat, c: nat)
    requires
        ps >= 1,
        c * ps >= len,
        c >= 1 ==> (c - 1) * ps < len,
        len == 0 ==> c == 0,
    ensures
        c == chunk_count(len, ps),
{
    let q = chunk_count(len, ps) as int;
    vstd::arithmetic::div_mod::lemma_fundamental_div_mod((len + ps - 1) as int, ps as int);
    assert(ps * q >= len && (q - 1) * ps < len) by (nonlinear_arith)
        requires
            ps >= 1,
            len + ps - 1 == ps * q + ((len + ps - 1) as int % (ps as int)),
            0 <= (len + ps - 1) as int % (ps as int) < ps,
    ;
    if len == 0 {
        assert(q * ps >= 0);
        assert((q - 1) * ps < 0);
        assert(q <= 0) by (nonlinear_arith)
            requires
                ps >= 1,
                (q - 1) * ps < 0,
        ;
        assert(q >= 0);
    } else {
        assert(c >= 1) by (nonlinear_arith)
            requires
                c * ps >= len,
                len > 0,
                ps >= 1,
        ;
        assert(c as int - 1 < q && q - 1 < c) by (nonlinear_arith)
            requires
                ps >= 1,
                (c - 1) * ps < len,
                (q - 1) * ps < len,
                c * ps >= len,
                ps * q >= len,
        ;
    }
}

/// Split `data` into packets of `ps` bytes; with `pad_last` the final
/// packet is 0xFF-padded to the full size.
fn chunk_data(data: &[u8], ps: usize, pad_last: bool) -> (r: Vec<Vec<u8>>)
    requires
        ps >= 1,
        data@.len() + ps <= usize::MAX,
    ensures
        r@.len() == chunk_count(data@.len(), ps as nat),
        forall|i: int|
            0 <= i < r@.len() ==> #[trigger] r@[i]@ == if pad_last {
                chunk_padded(data@, ps as nat, i as nat)
            } else {
                chunk_at(data@, ps as nat, i as nat)
            },
{
    let n = data.len();
    let mut out: Vec<Vec<u8>> = Vec::new();
    let mut pos: usize = 0;
    let mut c: usize = 0;
    while pos < n
        invariant
            n == data@.len(),
            n + ps <= usize::MAX,
            ps >= 1,
            pos == if c * ps <= n {
                (c * ps) as int
            } else {
                n as int
            },
            c >= 1 ==> (c - 1) * ps < n,
            c <= n,
            out@.len() == c,
            forall|i: int|
                0 <= i < c ==> #[trigger] out@[i]@ == if pad_last {
                    chunk_padded(data@, ps as nat, i as nat)
                } else {
                    chunk_at(data@, ps as nat, i as nat)
                },
        decreases n - pos,
    {
        proof {
            // While the loop continues, pos is exactly c * ps.
            assert(c * ps <= n) by {
                if c * ps > n {
                    assert(pos == n);
                }
            }
            assert((c + 1) * ps == c * ps + ps) by (nonlinear_arith);
            assert(c + 1 <= c * ps + 1) by (nonlinear_arith)
                requires
                    ps >= 1,
                    c >= 0,
            ;
        }
        let end = if pos + ps <= n {
            pos + ps
        } else {
            n
        };
        let mut chunk = slice_to_vec(slice_subrange(data, pos, end));
        proof {
            assert(chunk@ == chunk_at(data@, ps as nat, c as nat));
        }
        if pad_last {
            while chunk.len() < ps
                invariant
                    chunk@.len() <= ps,
                    chunk@ == chunk_at(data@, ps as nat, c as nat) + Seq::new(
                        (chunk@.len() - chunk_at(data@, ps as nat, c as nat).len()) as nat,
                        |j: int| 0xFFu8,
                    ),
                    chunk_at(data@, ps as nat, c as nat).len() <= chunk@.len(),
                decreases ps - chunk@.len(),
            {
                chunk.push(0xFF);
                proof {
                    assert(chunk@ =~= chunk_at(data@, ps as nat, c as nat) + Seq::new(
                        (chunk@.len() - chunk_at(data@, ps as nat, c as nat).len()) as nat,
                        |j: int| 0xFFu8,
                    ));
                }
            }
            proof {
                assert(chunk@ =~= chunk_padded(data@, ps as nat, c as nat));
            }
        }
        out.push(chunk);
        pos = end;
        c = c + 1;
        proof {
            assert((c - 1) * ps < n);
            assert(pos == if c * ps <= n {
                (c * ps) as int
            } else {
                n as int
            });
        }
    }
    proof {
        assert(pos == n);
        if n == 0 {
            assert(c == 0) by {
                if c >= 1 {
                    assert((c - 1) * ps < 0);
                    assert((c - 1) * ps >= 0) by (nonlinear_arith)
                        requires
                            c >= 1,
                            ps >= 1,
                    ;
                }
            }
        }
        assert(c * ps >= n) by {
            if c * ps < n {
                assert(pos == c * ps);
            }
        }
        lemma_chunk_count_unique(n as nat, ps as nat, c as nat);
    }
    out
}

// ---------------------------------------------------------------------------
// Upload plans
// ---------------------------------------------------------------------------

/// What an outside DEFLATE of a byte string yields: flate2's encoder at
/// best compression, a function of the input bytes alone.
pub uninterp spec fn deflate_of(data: Seq<u8>) -> Seq<u8>;

/// Relies on flate2's `DeflateEncoder` over an in-memory buffer at
/// `Compression::best()`: a raw-DEFLATE encoding of the input, computed
/// from the input bytes alone.
#[verifier::external_body]
fn deflate(data: &[u8]) -> (r: Vec<u8>)
    ensures
        r@ == deflate_of(data@),
{
    let mut encoder =
        flate2::write::DeflateEncoder::new(Vec::new(), flate2::Compression::best());
    let _ = encoder.write_all(data);
    encoder.finish().unwrap_or_default()
}

/// A planned RAM upload: the MemBegin command and the data packets, in
/// order.  The optional MemEnd is built separately so that the caller
/// decides about execution and the entry point.
pub struct RamPlan {
    pub begin: Command,
    pub packets: Vec<Vec<u8>>,
}

/// A planned flash upload: the begin command, the data packets in
/// order, and the end command when a reboot was requested.  Whether the
/// plain or the DEFLATE commands apply is visible in `begin`.
pub struct FlashUpload {
    pub begin: Command,
    pub packets: Vec<Vec<u8>>,
    pub end: Option<Command>,
}

impl Flasher {
    /// Plan a RAM upload to `addr`: MemBegin with the peer-dependent
    /// packet ceiling, then the data in fixed-size packets, the last one
    /// 0xFF-padded to the full packet size.
    pub fn write_ram_plan(&self, addr: u32, data: &[u8]) -> (r: RamPlan)
        requires
            1 <= data@.len(),
            data@.len() <= 0xFFFF0000,
        ensures
            ({
                let ps = min_u32(
                    data@.len() as u32,
                    if self.rom_loader {
                        ROM_MEM_PACKET_SIZE
                    } else {
                        STUB_MEM_PACKET_SIZE
                    },
                );
                &&& r.begin == (Command::MemBegin {
                    total_size: data@.len() as u32,
                    num_packets: chunk_count(data@.len(), ps as nat) as u32,
                    packet_size: ps,
                    mem_offset: addr,
                })
                &&& r.packets@.len() == chunk_count(data@.len(), ps as nat)
                &&& forall|i: int|
                    0 <= i < r.packets@.len() ==> #[trigger] r.packets@[i]@ == chunk_padded(
                        data@,
                        ps as nat,
                        i as nat,
                    )
            }),
    {
        let max_ps = if self.is_rom_loader() {
            ROM_MEM_PACKET_SIZE
        } else {
            STUB_MEM_PACKET_SIZE
        };
        let total = data.len() as u32;
        let begin = Command::mem_begin(addr, total, max_ps);
        let ps = if total < max_ps {
            total
        } else {
            max_ps
        };
        let packets = chunk_data(data, ps as usize, true);
        proof {
            match begin {
                Command::MemBegin { num_packets, .. } => {
                    lemma_chunk_count_unique(data@.len(), ps as nat, num_packets as nat);
                },
                _ => {},
            }
        }
        RamPlan { begin, packets }
    }

    /// The flash-upload packet size: 0x400 against the ROM loader,
    /// 0x4000 against the stub.
    pub fn flash_packet_size(&self) -> (r: u32)
        ensures
            r == if self.rom_loader {
                ROM_FLASH_PACKET_SIZE
            } else {
                STUB_FLASH_PACKET_SIZE
            },
    {
        if self.is_rom_loader() {
            ROM_FLASH_PACKET_SIZE
        } else {
            STUB_FLASH_PACKET_SIZE
        }
    }

    /// Plan a flash upload.
    ///
    /// The offset must be sector-aligned; a misaligned offset is usage
    /// error.  The erase size is the payload rounded up to the next
    /// multiple of four.  The compressed path DEFLATEs the padded
    /// payload and sends it in packets with no final padding; the plain
    /// path sends the payload in packets, the last one 0xFF-padded.
    /// The ESP8266's erase-size rule is unresolved and flashing it is
    /// refused.
    pub fn write_flash_plan(
        &self,
        flash_offset: u32,
        data: &[u8],
        compress: bool,
        reboot: bool,
    ) -> (r: Result<FlashUpload, Error>)
        requires
            self.chip is Some,
            data@.len() <= 0xFFFF0000,
        ensures
            flash_offset % FLASH_SECTOR_SIZE != 0 ==> r == Err::<FlashUpload, Error>(
                Error::Usage(FlasherError::MisalignedFlashOffset),
            ),
            flash_offset % FLASH_SECTOR_SIZE == 0 && self.chip == Some(Chip::Esp8266) ==> r
                == Err::<FlashUpload, Error>(Error::Usage(FlasherError::Esp8266EraseNotSupported)),
            flash_offset % FLASH_SECTOR_SIZE == 0 && self.chip != Some(Chip::Esp8266) && !compress
                ==> ({
                let ps = if self.rom_loader {
                    ROM_FLASH_PACKET_SIZE
                } else {
                    STUB_FLASH_PACKET_SIZE
                };
                r matches Ok(u) && {
                    &&& u.begin == (Command::FlashBegin {
                        total_size: pad4_len(data@.len()) as u32,
                        num_packets: chunk_count(data@.len(), ps as nat) as u32,
                        packet_size: ps,
                        flash_offset,
                    })
                    &&& u.packets@.len() == chunk_count(data@.len(), ps as nat)
                    &&& (forall|i: int|
                        0 <= i < u.packets@.len() ==> #[trigger] u.packets@[i]@ == chunk_padded(
                            data@,
                            ps as nat,
                            i as nat,
                        ))
                    &&& u.end == if reboot {
                        Some(Command::FlashEnd { reboot: 0u32 })
                    } else {
                        None::<Command>
                    }
                }
            }),
            flash_offset % FLASH_SECTOR_SIZE == 0 && self.chip != Some(Chip::Esp8266) && compress
                ==> ({
                let ps = if self.rom_loader {
                    ROM_FLASH_PACKET_SIZE
                } else {
                    STUB_FLASH_PACKET_SIZE
                };
                let c = deflate_of(padded4(data@));
                if c.len() <= 0xFFFF0000 {
                    r matches Ok(u) && {
                        &&& u.begin == (Command::FlashDeflBegin {
                            total_size: pad4_len(data@.len()) as u32,
                            num_packets: chunk_count(c.len(), ps as nat) as u32,
                            packet_size: ps,
                            flash_offset,
                        })
                        &&& u.packets@.len() == chunk_count(c.len(), ps as nat)
                        &&& (forall|i: int|
                            0 <= i < u.packets@.len() ==> #[trigger] u.packets@[i]@ == chunk_at(
                                c,
                                ps as nat,
                                i as nat,
                            ))
                        &&& u.end == if reboot {
                            Some(Command::FlashDeflEnd { reboot: 0u32 })
                        } else {
                            None::<Command>
                        }
                    }
                } else {
                    r == Err::<FlashUpload, Error>(Error::Usage(FlasherError::DataTooLong))
                }
            }),
    {
        if flash_offset % FLASH_SECTOR_SIZE != 0 {
            return Err(Error::Usage(FlasherError::MisalignedFlashOffset));
        }
        let is_8266 = matches!(self.chip, Some(Chip::Esp8266));
        if is_8266 {
            return Err(Error::Usage(FlasherError::Esp8266EraseNotSupported));
        }
        let ps = self.flash_packet_size();
        let n = data.len();
        let target = ((n + 3) / 4) * 4;
        proof {
            vstd::arithmetic::div_mod::lemma_fundamental_div_mod((n + 3) as int, 4);
            assert(target == pad4_len(n as nat));
            assert(n <= target <= n + 3);
        }
        let erase_size = target as u32;
        if compress {
            let mut padded = slice_to_vec(data);
            proof {
                assert(padded@ =~= data@ + Seq::new(
                    (padded@.len() - data@.len()) as nat,
                    |j: int| 0xFFu8,
                ));
            }
            while padded.len() < target
                invariant
                    data@.len() <= padded@.len() <= target,
                    target == pad4_len(data@.len()),
                    padded@ == data@ + Seq::new(
                        (padded@.len() - data@.len()) as nat,
                        |j: int| 0xFFu8,
                    ),
                decreases target - padded@.len(),
            {
                padded.push(0xFF);
                proof {
                    assert(padded@ =~= data@ + Seq::new(
                        (padded@.len() - data@.len()) as nat,
                        |j: int| 0xFFu8,
                    ));
                }
            }
            proof {
                assert(padded@ =~= padded4(data@));
            }
            let compressed = deflate(padded.as_slice());
            if compressed.len() > 0xFFFF0000 {
                return Err(Error::Usage(FlasherError::DataTooLong));
            }
            let packets = chunk_data(compressed.as_slice(), ps as usize, false);
            let num_packets = packets.len() as u32;
            proof {
                lemma_chunk_count_small(compressed@.len(), ps as nat);
            }
            let begin = Command::FlashDeflBegin {
                total_size: erase_size,
                num_packets,
                packet_size: ps,
                flash_offset,
            };
            let end = if reboot {
                Some(Command::FlashDeflEnd { reboot: 0 })
            } else {
                None
            };
            Ok(FlashUpload { begin, packets, end })
        } else {
            let packets = chunk_data(data, ps as usize, true);
            let num_packets = packets.len() as u32;
            proof {
                lemma_chunk_count_small(data@.len(), ps as nat);
            }
            let begin = Command::FlashBegin {
                total_size: erase_size,
                num_packets,
                packet_size: ps,
                flash_offset,
            };
            let end = if reboot {
                Some(Command::FlashEnd { reboot: 0 })
            } else {
                None
            };
            Ok(FlashUpload { begin, packets, end })
        }
    }
}

impl Flasher {
    /// Begin stub activation: refuse while the stub already runs, parse
    /// the blob, and check that it was built for the identified chip.
    /// A chip mismatch is classed as usage, not format: the blob itself
    /// is well-formed, it just belongs to another chip.
    /// The caller then uploads text and data with `write_ram_plan`, ends
    /// with MemEnd at the stub's entry point (a timeout there is
    /// expected, see `mem_end_timeout_tolerated`), and hands the first
    /// frame read back to `on_stub_hello`.
    pub fn run_stub_begin(&self, blob: &[u8]) -> (r: Result<Stub, Error>)
        requires
            self.chip is Some,
        ensures
            !self.rom_loader ==> r == Err::<Stub, Error>(
                Error::Usage(FlasherError::StubAlreadyRunning),
            ),
            self.rom_loader && !stub_wf(blob@) ==> r == Err::<Stub, Error>(
                Error::Format(FormatError::InvalidStubBlob),
            ),
            self.rom_loader && stub_wf(blob@) ==> ({
                match stub_chip_spec(le32_at(blob@, 4) as u32) {
                    None => r == Err::<Stub, Error>(Error::Format(FormatError::InvalidStubBlob)),
                    Some(c) => if self.chip == Some(c) {
                        r matches Ok(s) && ({
                            let b = blob@;
                            let text_len = le32_at(b, 16);
                            &&& s.chip == le32_at(b, 4)
                            &&& s.entry == le32_at(b, 8)
                            &&& s.text_start == le32_at(b, 12)
                            &&& s.text@ == b.subrange(20, 20 + text_len)
                            &&& s.data_start == le32_at(b, 20 + text_len)
                            &&& s.data@ == b.subrange(
                                28 + text_len,
                                28 + text_len + le32_at(b, 24 + text_len),
                            )
                        })
                    } else {
                        r == Err::<Stub, Error>(Error::Usage(FlasherError::StubChipMismatch))
                    },
                }
            }),
    {
        if !self.is_rom_loader() {
            return Err(Error::Usage(FlasherError::StubAlreadyRunning));
        }
        let stub = match parse_stub(blob) {
            Ok(s) => s,
            Err(e) => {
                return Err(e);
            },
        };
        match stub.chip() {
            None => Err(Error::Format(FormatError::InvalidStubBlob)),
            Some(c) => {
                match self.chip {
                    Some(mine) => {
                        if c == mine {
                            Ok(stub)
                        } else {
                            Err(Error::Usage(FlasherError::StubChipMismatch))
                        }
                    },
                    None => Err(Error::Usage(FlasherError::StubChipMismatch)),
                }
            },
        }
    }
}

/// The packet count never exceeds the byte count plus the packet size.
proof fn lemma_chunk_count_small(len: nat, ps: nat)
    requires
        ps >= 1,
    ensures
        chunk_count(len, ps) <= len + ps - 1,
{
    let q = chunk_count(len, ps) as int;
    vstd::arithmetic::div_mod::lemma_fundamental_div_mod((len + ps - 1) as int, ps as int);
    assert(q <= ps * q) by (nonlinear_arith)
        requires
            ps >= 1,
            q >= 0,
    ;
}

} // verus!
