//! Host-side programmer for Espressif serial bootloaders.
//!
//! The crate implements the transport and protocol engine of the flasher:
//! SLIP framing, the command/response wire format, the connect and sync
//! handshake, stub activation, SPI-controller transaction synthesis, and the
//! RAM/flash upload plans.  Everything is expressed over plain bytes and
//! integers so that the logic can be verified; the serial line itself is
//! driven by an unverified front end that feeds bytes in and out.

use vstd::prelude::*;

pub mod chip;
pub mod command;
pub mod elf;
pub mod event;
pub mod flasher;
pub mod image;
pub mod partition;
pub mod protocol;
pub mod slip;
pub mod stub;

verus! {

// ---------------------------------------------------------------------------
// Error taxonomy
// ---------------------------------------------------------------------------

/// A malformed byte sequence: a SLIP frame, response header, stub blob,
/// image, ELF or partition table that does not follow its format.
#[derive(Clone, Copy, Debug, PartialEq, Eq, Structural)]
pub enum FormatError {
    InvalidSlipEscape,
    InvalidResponseHeader,
    InvalidStubBlob,
    InvalidImage,
    InvalidElf,
    InvalidPartitionTable,
}

/// A well-formed exchange whose content breaks the protocol's rules.
#[derive(Clone, Copy, Debug, PartialEq, Eq, Structural)]
pub enum ProtocolError {
    /// The response status byte was neither 0 nor 1.
    InvalidStatus,
    /// A response had an impossible shape for its opcode (e.g. a digest of
    /// the wrong width).
    InvalidResponse,
    /// The freshly started stub did not greet with `OHAI`.
    StubHelloMissing,
    /// The status-trailer width is needed but no opcode table entry nor
    /// cached width is available; the chip must be identified first.
    StatusWidthUnknown,
}

/// The collected errors of the flasher facade: misuse of the API or an
/// unusable device.
#[derive(Clone, Copy, Debug, PartialEq, Eq, Structural)]
pub enum FlasherError {
    /// The magic-register value matches no known chip.
    UnknownDevice(u32),
    /// SPI transaction operands out of range (opcode length, address length,
    /// dummy cycles, or data size).
    InvalidSpiCommand,
    /// Flash offset not a multiple of 4096.
    MisalignedFlashOffset,
    /// Stub activation requested while the stub is already running.
    StubAlreadyRunning,
    /// The stub blob was built for a different chip.
    StubChipMismatch,
    /// The erase-size rule for the ESP8266 is unresolved; flashing it is
    /// refused rather than guessed at.
    Esp8266EraseNotSupported,
    /// An upload was too large for the wire format's 32-bit counters.
    DataTooLong,
}

/// The closed error taxonomy of the library.
///
/// `Transport` and `Timeout` originate at the serial line and are passed in
/// by the I/O layer; the rest are produced by the library itself.
#[derive(Clone, Copy, Debug, PartialEq, Eq, Structural)]
pub enum Error {
    /// An I/O fault on the serial line (reported by the port driver).
    Transport,
    /// An operation deadline elapsed.  Distinguished from `Transport` so
    /// that callers can retry where the protocol expects it.
    Timeout,
    /// Malformed bytes.
    Format(FormatError),
    /// The target answered status=1 with an enumerated error byte.
    Command(CommandError),
    /// A protocol-level violation.
    Protocol(ProtocolError),
    /// API misuse or an unusable device.
    Usage(FlasherError),
}

/// The enumerated failure conditions a target reports with status=1.
#[derive(Clone, Copy, Debug, PartialEq, Eq, Structural)]
pub enum CommandError {
    ReceivedMessageInvalid,
    FailedToActOnMessage,
    InvalidCrc,
    FlashWriteError,
    FlashReadError,
    FlashReadLengthError,
    DeflateError,
    BadDataLen,
    BadDataChecksum,
    BadBlocksize,
    InvalidCommand,
    FailedSpiOp,
    FailedSpiUnlock,
    NotInFlashMode,
    InflateError,
    NotEnoughData,
    TooMuchData,
    CommandNotImplemented,
    UnknownErrorCode,
}

impl CommandError {
    /// The numeric error byte to named condition mapping.
    pub open spec fn from_code_spec(value: u8) -> CommandError {
        match value {
            0x05 => CommandError::ReceivedMessageInvalid,
            0x06 => CommandError::FailedToActOnMessage,
            0x07 => CommandError::InvalidCrc,
            0x08 => CommandError::FlashWriteError,
            0x09 => CommandError::FlashReadError,
            0x0A => CommandError::FlashReadLengthError,
            0x0B => CommandError::DeflateError,
            0xC0 => CommandError::BadDataLen,
            0xC1 => CommandError::BadDataChecksum,
            0xC2 => CommandError::BadBlocksize,
            0xC3 => CommandError::InvalidCommand,
            0xC4 => CommandError::FailedSpiOp,
            0xC5 => CommandError::FailedSpiUnlock,
            0xC6 => CommandError::NotInFlashMode,
            0xC7 => CommandError::InflateError,
            0xC8 => CommandError::NotEnoughData,
            0xC9 => CommandError::TooMuchData,
            0xFF => CommandError::CommandNotImplemented,
            _ => CommandError::UnknownErrorCode,
        }
    }

    /// Decode a status-trailer error byte.
    pub fn from_code(value: u8) -> (r: CommandError)
        ensures
            r == CommandError::from_code_spec(value),
    {
        match value {
            0x05 => CommandError::ReceivedMessageInvalid,
            0x06 => CommandError::FailedToActOnMessage,
            0x07 => CommandError::InvalidCrc,
            0x08 => CommandError::FlashWriteError,
            0x09 => CommandError::FlashReadError,
            0x0A => CommandError::FlashReadLengthError,
            0x0B => CommandError::DeflateError,
            0xC0 => CommandError::BadDataLen,
            0xC1 => CommandError::BadDataChecksum,
            0xC2 => CommandError::BadBlocksize,
            0xC3 => CommandError::InvalidCommand,
            0xC4 => CommandError::FailedSpiOp,
            0xC5 => CommandError::FailedSpiUnlock,
            0xC6 => CommandError::NotInFlashMode,
            0xC7 => CommandError::InflateError,
            0xC8 => CommandError::NotEnoughData,
            0xC9 => CommandError::TooMuchData,
            0xFF => CommandError::CommandNotImplemented,
            _ => CommandError::UnknownErrorCode,
        }
    }
}

/// Asking an error value whether it is the timeout kind, so that retry
/// loops can tell deadlines from real faults.
pub trait ErrorExt {
    spec fn timeout_spec(&self) -> bool;

    fn is_timeout(&self) -> (r: bool)
        ensures
            r == self.timeout_spec(),
    ;
}

impl ErrorExt for Error {
    open spec fn timeout_spec(&self) -> bool {
        *self is Timeout
    }

    fn is_timeout(&self) -> (r: bool) {
        matches!(self, Error::Timeout)
    }
}

impl<T> ErrorExt for core::result::Result<T, Error> {
    open spec fn timeout_spec(&self) -> bool {
        self matches Err(e) && e is Timeout
    }

    fn is_timeout(&self) -> (r: bool) {
        matches!(self, Err(Error::Timeout))
    }
}

// ---------------------------------------------------------------------------
// Little-endian byte helpers
// ---------------------------------------------------------------------------

/// The two little-endian bytes of `v`.
pub open spec fn le16_bytes(v: u16) -> Seq<u8> {
    seq![(v & 0xFF) as u8, ((v >> 8) & 0xFF) as u8]
}

/// The four little-endian bytes of `v`.
pub open spec fn le32_bytes(v: u32) -> Seq<u8> {
    seq![
        (v & 0xFF) as u8,
        ((v >> 8) & 0xFF) as u8,
        ((v >> 16) & 0xFF) as u8,
        ((v >> 24) & 0xFF) as u8,
    ]
}

/// The value of up to four little-endian bytes.
pub open spec fn le_val(s: Seq<u8>) -> int
    decreases s.len(),
{
    if s.len() == 0 {
        0
    } else {
        s[0] + 0x100 * le_val(s.drop_first())
    }
}

/// Read a `u16` from the first two bytes of `data`, little-endian.
pub fn from_le16(data: &[u8]) -> (r: u16)
    requires
        data@.len() >= 2,
    ensures
        r == data@[0] + 0x100 * data@[1],
{
    data[0] as u16 + 0x100 * data[1] as u16
}

/// Read a `u32` from the first three bytes of `data`, little-endian.
pub fn from_le24(data: &[u8]) -> (r: u32)
    requires
        data@.len() >= 3,
    ensures
        r == data@[0] + 0x100 * data@[1] + 0x10000 * data@[2],
{
    data[0] as u32 + 0x100 * data[1] as u32 + 0x10000 * data[2] as u32
}

/// Read a `u32` from the first four bytes of `data`, little-endian.
pub fn from_le32(data: &[u8]) -> (r: u32)
    requires
        data@.len() >= 4,
    ensures
        r == data@[0] + 0x100 * data@[1] + 0x10000 * data@[2] + 0x1000000 * data@[3],
{
    data[0] as u32 + 0x100 * data[1] as u32 + 0x10000 * data[2] as u32
        + 0x1000000 * data[3] as u32
}

/// Read a `u32` from zero to four little-endian bytes, missing high bytes
/// meaning zero.
pub fn from_le(data: &[u8]) -> (r: u32)
    requires
        data@.len() <= 4,
    ensures
        r == le_val(data@),
{
    let mut r: u32 = 0;
    let mut i: usize = data.len();
    proof {
        assert(data@.skip(i as int) =~= Seq::<u8>::empty());
    }
    while i > 0
        invariant
            i <= data@.len() <= 4,
            r == le_val(data@.skip(i as int)),
        decreases i,
    {
        i = i - 1;
        proof {
            assert(data@.skip(i as int).drop_first() =~= data@.skip(i as int + 1));
            lemma_le_val_bound(data@.skip(i as int + 1));
            assert(pow256(0) == 1);
            assert(pow256(1) == 0x100);
            assert(pow256(2) == 0x10000);
            assert(pow256(3) == 0x1000000);
        }
        r = data[i] as u32 + 0x100 * r;
    }
    proof {
        assert(data@.skip(0) =~= data@);
    }
    r
}

/// The value of `n` little-endian bytes is below `0x100^n`.
pub proof fn lemma_le_val_bound(s: Seq<u8>)
    ensures
        0 <= le_val(s) < pow256(s.len() as nat),
    decreases s.len(),
{
    if s.len() > 0 {
        lemma_le_val_bound(s.drop_first());
    }
}

/// 256 to the power `n`.
pub open spec fn pow256(n: nat) -> int
    decreases n,
{
    if n == 0 {
        1
    } else {
        0x100 * pow256((n - 1) as nat)
    }
}

/// Read a `u16` from the first two bytes of `data`, big-endian.
pub fn from_be16(data: &[u8]) -> (r: u16)
    requires
        data@.len() >= 2,
    ensures
        r == 0x100 * data@[0] + data@[1],
{
    0x100 * data[0] as u16 + data[1] as u16
}

} // verus!
