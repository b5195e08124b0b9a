//! The protocol engine's decisions: matching response frames against the
//! outstanding command, the connect/sync handshake, the reset sequence,
//! command-building conventions, and response post-processing.
//!
//! The engine is written as pure functions and an explicit state machine:
//! the unverified I/O layer performs the actions (write a frame, read a
//! frame, toggle a control line, sleep) and feeds the outcomes back in.

use vstd::prelude::*;

use crate::command::{
    parse_response, resp_len, resp_value, resp_header_ok, status_width_of, Command,
    ResponsePacket,
};
use crate::{CommandError, Error, ProtocolError};

verus! {

/// The floor of every read deadline, in milliseconds: keeps reads
/// responsive to short inter-byte gaps.
pub const SERIAL_TIMEOUT_FLOOR_MS: u64 = 10;

/// The effective deadline of one read: the larger of the floor and the
/// remaining budget of the outer operation.
pub fn read_deadline_ms(remaining_ms: u64) -> (r: u64)
    ensures
        r == if remaining_ms > SERIAL_TIMEOUT_FLOOR_MS {
            remaining_ms as int
        } else {
            SERIAL_TIMEOUT_FLOOR_MS as int
        },
{
    if remaining_ms > SERIAL_TIMEOUT_FLOOR_MS {
        remaining_ms
    } else {
        SERIAL_TIMEOUT_FLOOR_MS
    }
}

/// The boot banner that announces download mode:
/// `waiting for download\r\n`.
pub open spec fn download_banner() -> Seq<u8> {
    seq![
        0x77u8, 0x61, 0x69, 0x74, 0x69, 0x6E, 0x67, 0x20, 0x66, 0x6F, 0x72, 0x20, 0x64, 0x6F,
        0x77, 0x6E, 0x6C, 0x6F, 0x61, 0x64, 0x0D, 0x0A,
    ]
}

/// Whether `line` is exactly the boot banner.
pub fn is_download_banner(line: &[u8]) -> (r: bool)
    ensures
        r == (line@ == download_banner()),
{
    let expected: [u8; 22] = [
        0x77u8, 0x61, 0x69, 0x74, 0x69, 0x6E, 0x67, 0x20, 0x66, 0x6F, 0x72, 0x20, 0x64, 0x6F,
        0x77, 0x6E, 0x6C, 0x6F, 0x61, 0x64, 0x0D, 0x0A,
    ];
    if line.len() != 22 {
        proof {
            assert(line@ != download_banner());
        }
        return false;
    }
    let mut i: usize = 0;
    while i < 22
        invariant
            i <= 22,
            line@.len() == 22,
            expected@ == download_banner(),
            forall|m: int| 0 <= m < i ==> line@[m] == download_banner()[m],
        decreases 22 - i,
    {
        if line[i] != expected[i] {
            proof {
                assert(line@ != download_banner());
            }
            return false;
        }
        i = i + 1;
    }
    proof {
        assert(line@ =~= download_banner());
    }
    true
}

// ---------------------------------------------------------------------------
// Matching a response frame against the outstanding command
// ---------------------------------------------------------------------------

/// What to do with one decoded frame while a command is outstanding.
#[derive(Debug, PartialEq, Eq)]
pub enum ResponseDisposition {
    /// The frame is not a parseable response: trace it and keep reading.
    Invalid(Error),
    /// A response to some other opcode: out-of-band chatter, drop it and
    /// keep reading.
    Mismatch(ResponsePacket),
    /// The answer to the outstanding command.
    Done(Result<(u32, Vec<u8>), Error>),
}

/// Match one decoded frame against the outstanding command `cmd_code`.
///
/// A frame that parses and echoes `cmd_code` settles the command:
/// status 0 yields its value and data, status 1 the enumerated command
/// error, anything else an invalid-status protocol error.
pub fn match_response(
    frame: &[u8],
    cmd_code: u8,
    rom_loader: bool,
    cached_status_width: Option<u8>,
) -> (r: ResponseDisposition)
    ensures
        ({
            let s = frame@;
            let wopt = status_width_of(s[1], rom_loader, cached_status_width, resp_len(s));
            if !(resp_header_ok(s) && wopt is Some) {
                r is Invalid
            } else {
                let w = wopt.unwrap();
                let status = s[8 + resp_len(s) - w];
                let data = s.subrange(8, 8 + resp_len(s) - w);
                if s[1] != cmd_code {
                    r matches ResponseDisposition::Mismatch(p) && p.cmd_code == s[1]
                } else if status == 0 {
                    r matches ResponseDisposition::Done(Ok((v, d))) && v == resp_value(s) && d@
                        == data
                } else if status == 1 {
                    r == ResponseDisposition::Done(Err::<(u32, Vec<u8>), Error>(Error::Command(
                        CommandError::from_code_spec(s[9 + resp_len(s) - w]),
                    )))
                } else {
                    r == ResponseDisposition::Done(Err::<(u32, Vec<u8>), Error>(Error::Protocol(
                        ProtocolError::InvalidStatus,
                    )))
                }
            }
        }),
{
    match parse_response(frame, rom_loader, cached_status_width) {
        Err(e) => ResponseDisposition::Invalid(e),
        Ok(p) => {
            if p.cmd_code != cmd_code {
                ResponseDisposition::Mismatch(p)
            } else if p.status == 0 {
                ResponseDisposition::Done(Ok((p.value, p.data)))
            } else if p.status == 1 {
                ResponseDisposition::Done(Err(Error::Command(CommandError::from_code(p.error))))
            } else {
                ResponseDisposition::Done(Err(Error::Protocol(ProtocolError::InvalidStatus)))
            }
        },
    }
}

// ---------------------------------------------------------------------------
// Command-building conventions
// ---------------------------------------------------------------------------

/// A WriteReg command: every register write of the engine uses the full
/// mask and no delay.
pub fn write_reg_command(address: u32, value: u32) -> (r: Command)
    ensures
        r == (Command::WriteReg { address, value, mask: 0xFFFFFFFFu32, delay: 0u32 }),
{
    Command::WriteReg { address, value, mask: 0xFFFFFFFF, delay: 0 }
}

/// A ReadReg command.
pub fn read_reg_command(address: u32) -> (r: Command)
    ensures
        r == (Command::ReadReg { address }),
{
    Command::ReadReg { address }
}

/// A SpiSetParams command with the standard flash geometry.
pub fn spi_set_params_command(total_size: u32) -> (r: Command)
    ensures
        r == (Command::SpiSetParams {
            id: 0u32,
            total_size,
            block_size: 0x10000u32,
            sector_size: 0x1000u32,
            page_size: 0x100u32,
            status_mask: 0xFFFFu32,
        }),
{
    Command::SpiSetParams {
        id: 0,
        total_size,
        block_size: 0x10000,
        sector_size: 0x1000,
        page_size: 0x100,
        status_mask: 0xFFFF,
    }
}

/// A ChangeBaudRate command: against the ROM loader the old rate is
/// encoded as zero; against the stub it is the current port rate.
pub fn change_baud_command(rom_loader: bool, new_rate: u32, current_rate: u32) -> (r: Command)
    ensures
        r == (Command::ChangeBaudRate {
            new_rate,
            old_rate: if rom_loader {
                0u32
            } else {
                current_rate
            },
        }),
{
    Command::ChangeBaudRate {
        new_rate,
        old_rate: if rom_loader {
            0
        } else {
            current_rate
        },
    }
}

/// A FlashEnd command; on the wire 0 means reboot and 1 means stay.
pub fn flash_end_command(reboot: bool) -> (r: Command)
    ensures
        r == (Command::FlashEnd {
            reboot: if reboot {
                0u32
            } else {
                1u32
            },
        }),
{
    Command::FlashEnd {
        reboot: if reboot {
            0
        } else {
            1
        },
    }
}

/// A FlashDeflEnd command; on the wire 0 means reboot and 1 means stay.
pub fn flash_defl_end_command(reboot: bool) -> (r: Command)
    ensures
        r == (Command::FlashDeflEnd {
            reboot: if reboot {
                0u32
            } else {
                1u32
            },
        }),
{
    Command::FlashDeflEnd {
        reboot: if reboot {
            0
        } else {
            1
        },
    }
}

/// A MemEnd command; on the wire 0 means execute and 1 means no-op.
pub fn mem_end_command(execute: bool, entry_point: u32) -> (r: Command)
    ensures
        r == (Command::MemEnd {
            execute: if execute {
                0u32
            } else {
                1u32
            },
            entry_point,
        }),
{
    Command::MemEnd {
        execute: if execute {
            0
        } else {
            1
        },
        entry_point,
    }
}

// ---------------------------------------------------------------------------
// Reset sequence
// ---------------------------------------------------------------------------

/// One step of the reset sequence.  RTS drives EN (chip reset) and DTR
/// drives GPIO0 (the boot-mode strap); both are active-low on the wire,
/// and `true` here means asserted.
#[derive(Clone, Copy, Debug, PartialEq, Eq, Structural)]
pub enum ResetStep {
    SetRts(bool),
    SetDtr(bool),
    SleepMs(u64),
    FlushInput,
}

/// The reset sequence: hold the chip in reset with the strap released,
/// flush stale bytes, release reset with the strap set for the requested
/// boot mode, and finally release the strap.
pub fn reset_steps(enter_bootloader: bool) -> (r: Vec<ResetStep>)
    ensures
        r@ == seq![
            ResetStep::SetRts(true),
            ResetStep::SetDtr(false),
            ResetStep::SleepMs(100),
            ResetStep::FlushInput,
            ResetStep::SetDtr(enter_bootloader),
            ResetStep::SetRts(false),
            ResetStep::SleepMs(500),
            ResetStep::SetDtr(false),
        ],
{
    let mut steps: Vec<ResetStep> = Vec::new();
    steps.push(ResetStep::SetRts(true));
    steps.push(ResetStep::SetDtr(false));
    steps.push(ResetStep::SleepMs(100));
    steps.push(ResetStep::FlushInput);
    steps.push(ResetStep::SetDtr(enter_bootloader));
    steps.push(ResetStep::SetRts(false));
    steps.push(ResetStep::SleepMs(500));
    steps.push(ResetStep::SetDtr(false));
    proof {
        assert(steps@ =~= seq![
            ResetStep::SetRts(true),
            ResetStep::SetDtr(false),
            ResetStep::SleepMs(100),
            ResetStep::FlushInput,
            ResetStep::SetDtr(enter_bootloader),
            ResetStep::SetRts(false),
            ResetStep::SleepMs(500),
            ResetStep::SetDtr(false),
        ]);
    }
    steps
}

// ---------------------------------------------------------------------------
// Connect/sync handshake
// ---------------------------------------------------------------------------

/// How many reset rounds the handshake tries.
pub const CONNECT_RESET_ROUNDS: u8 = 10;

/// How many lines one round listens to for the banner.
pub const CONNECT_LINE_READS: u8 = 10;

/// How many Sync commands the handshake sends.
pub const CONNECT_SYNC_ATTEMPTS: u8 = 10;

/// How many responses one Sync attempt drains at most.
pub const SYNC_DRAIN_LIMIT: u8 = 100;

/// The phase of the connect handshake.
#[derive(Clone, Copy, Debug, PartialEq, Eq, Structural)]
pub enum ConnectPhase {
    /// A reset is owed before listening.
    NeedReset,
    /// Listening for the boot banner.
    AwaitBanner,
    /// Sending Sync commands and draining their response storm.
    Syncing,
    /// The handshake succeeded.
    Connected,
    /// The handshake failed.
    Failed,
}

/// What the I/O layer must do next.
#[derive(Clone, Copy, Debug, PartialEq, Eq, Structural)]
pub enum ConnectAction {
    /// Run the reset sequence, then report `ResetDone`.
    Reset,
    /// Read one line with a 100 ms deadline, then report the line, its
    /// timeout, or its error.
    ReadLine,
    /// Send one Sync command and start reading responses.
    SendSync,
    /// Keep reading responses of the current Sync.
    ReadResponse,
    /// The handshake is over: connected.
    Succeed,
    /// The handshake is over: failed with the given error.
    Fail(Error),
}

/// What the I/O layer observed.
#[derive(Clone, Debug, PartialEq, Eq)]
pub enum ConnectEvent {
    /// The reset sequence completed.
    ResetDone,
    /// A line arrived.
    Line(Vec<u8>),
    /// The line read timed out.
    LineTimeout,
    /// The line read failed.
    LineError(Error),
    /// A response to the outstanding Sync arrived with status 0.
    SyncResponse,
    /// Reading the next Sync response timed out.
    SyncTimeout,
    /// Sending the Sync or reading its response failed.
    SyncError(Error),
}

/// The connect handshake: up to ten reset rounds, each listening to up
/// to ten lines for the boot banner; then up to ten Sync attempts, each
/// succeeding when a read times out after at least one Sync response.
#[derive(Clone, Copy, Debug, PartialEq, Eq, Structural)]
pub struct ConnectMachine {
    pub phase: ConnectPhase,
    /// Resets performed.
    pub resets: u8,
    /// Lines listened to in the current round.
    pub lines: u8,
    /// Sync commands sent.
    pub syncs: u8,
    /// Responses drained for the current Sync.
    pub drains: u8,
    /// Whether the current Sync got at least one response.
    pub got_sync_response: bool,
}

/// The transition function of the connect handshake.
pub open spec fn connect_step_spec(m: ConnectMachine, ev: ConnectEvent) -> (ConnectMachine,
    ConnectAction) {
    match (m.phase, ev) {
        (ConnectPhase::NeedReset, ConnectEvent::ResetDone) => (
            ConnectMachine {
                phase: ConnectPhase::AwaitBanner,
                resets: (m.resets + 1) as u8,
                lines: 0,
                ..m
            },
            ConnectAction::ReadLine,
        ),
        (ConnectPhase::AwaitBanner, ConnectEvent::Line(line)) => {
            if line@ == download_banner() {
                (
                    ConnectMachine { phase: ConnectPhase::Syncing, syncs: 1, drains: 0,
                        got_sync_response: false, ..m },
                    ConnectAction::SendSync,
                )
            } else {
                connect_banner_miss(m)
            }
        },
        (ConnectPhase::AwaitBanner, ConnectEvent::LineTimeout) => connect_banner_miss(m),
        (ConnectPhase::AwaitBanner, ConnectEvent::LineError(e)) => (
            ConnectMachine { phase: ConnectPhase::Failed, ..m },
            ConnectAction::Fail(e),
        ),
        (ConnectPhase::Syncing, ConnectEvent::SyncResponse) => {
            if m.drains < SYNC_DRAIN_LIMIT {
                (
                    ConnectMachine { drains: (m.drains + 1) as u8, got_sync_response: true, ..m },
                    ConnectAction::ReadResponse,
                )
            } else {
                (
                    ConnectMachine { phase: ConnectPhase::Connected, got_sync_response: true,
                        ..m },
                    ConnectAction::Succeed,
                )
            }
        },
        (ConnectPhase::Syncing, ConnectEvent::SyncTimeout) => {
            if m.got_sync_response {
                (ConnectMachine { phase: ConnectPhase::Connected, ..m }, ConnectAction::Succeed)
            } else if m.syncs < CONNECT_SYNC_ATTEMPTS {
                (
                    ConnectMachine { syncs: (m.syncs + 1) as u8, drains: 0, ..m },
                    ConnectAction::SendSync,
                )
            } else {
                (
                    ConnectMachine { phase: ConnectPhase::Failed, ..m },
                    ConnectAction::Fail(Error::Timeout),
                )
            }
        },
        (ConnectPhase::Syncing, ConnectEvent::SyncError(e)) => (
            ConnectMachine { phase: ConnectPhase::Failed, ..m },
            ConnectAction::Fail(e),
        ),
        _ => (ConnectMachine { phase: ConnectPhase::Failed, ..m }, ConnectAction::Fail(
            Error::Protocol(ProtocolError::InvalidResponse),
        )),
    }
}

/// Where to go when a listened line is not the banner: the next line of
/// the round, the next round, or—with both exhausted—a timeout failure.
pub open spec fn connect_banner_miss(m: ConnectMachine) -> (ConnectMachine, ConnectAction) {
    if m.lines + 1 < CONNECT_LINE_READS {
        (ConnectMachine { lines: (m.lines + 1) as u8, ..m }, ConnectAction::ReadLine)
    } else if m.resets < CONNECT_RESET_ROUNDS {
        (ConnectMachine { phase: ConnectPhase::NeedReset, ..m }, ConnectAction::Reset)
    } else {
        (ConnectMachine { phase: ConnectPhase::Failed, ..m }, ConnectAction::Fail(Error::Timeout))
    }
}

impl ConnectMachine {
    /// A fresh handshake, owing its first reset.
    pub fn new() -> (r: ConnectMachine)
        ensures
            r.phase is NeedReset,
            r.resets == 0 && r.lines == 0 && r.syncs == 0 && r.drains == 0,
            !r.got_sync_response,
    {
        ConnectMachine {
            phase: ConnectPhase::NeedReset,
            resets: 0,
            lines: 0,
            syncs: 0,
            drains: 0,
            got_sync_response: false,
        }
    }

    /// The machine's bounds: it never resets, listens, sends or drains
    /// more often than the handshake allows.
    pub open spec fn inv(&self) -> bool {
        &&& self.resets <= CONNECT_RESET_ROUNDS
        &&& self.lines <= CONNECT_LINE_READS
        &&& self.syncs <= CONNECT_SYNC_ATTEMPTS
        &&& self.drains <= SYNC_DRAIN_LIMIT
        &&& (self.phase is AwaitBanner ==> self.resets >= 1)
        &&& (self.phase is NeedReset ==> self.resets < CONNECT_RESET_ROUNDS)
    }

    /// Feed one observation in; the returned action is what the I/O
    /// layer must do next.
    pub fn step(&mut self, ev: ConnectEvent) -> (a: ConnectAction)
        requires
            old(self).inv(),
        ensures
            (*final(self), a) == connect_step_spec(*old(self), ev),
            final(self).inv(),
            a is Reset ==> final(self).phase is NeedReset,
            a is Succeed <==> final(self).phase is Connected,
            a is Fail <==> final(self).phase is Failed,
    {
        let m = *self;
        match (m.phase, ev) {
            (ConnectPhase::NeedReset, ConnectEvent::ResetDone) => {
                self.phase = ConnectPhase::AwaitBanner;
                self.resets = m.resets + 1;
                self.lines = 0;
                ConnectAction::ReadLine
            },
            (ConnectPhase::AwaitBanner, ConnectEvent::Line(line)) => {
                if is_download_banner(line.as_slice()) {
                    self.phase = ConnectPhase::Syncing;
                    self.syncs = 1;
                    self.drains = 0;
                    self.got_sync_response = false;
                    ConnectAction::SendSync
                } else {
                    self.banner_miss()
                }
            },
            (ConnectPhase::AwaitBanner, ConnectEvent::LineTimeout) => self.banner_miss(),
            (ConnectPhase::AwaitBanner, ConnectEvent::LineError(e)) => {
                self.phase = ConnectPhase::Failed;
                ConnectAction::Fail(e)
            },
            (ConnectPhase::Syncing, ConnectEvent::SyncResponse) => {
                if m.drains < SYNC_DRAIN_LIMIT {
                    self.drains = m.drains + 1;
                    self.got_sync_response = true;
                    ConnectAction::ReadResponse
                } else {
                    self.phase = ConnectPhase::Connected;
                    self.got_sync_response = true;
                    ConnectAction::Succeed
                }
            },
            (ConnectPhase::Syncing, ConnectEvent::SyncTimeout) => {
                if m.got_sync_response {
                    self.phase = ConnectPhase::Connected;
                    ConnectAction::Succeed
                } else if m.syncs < CONNECT_SYNC_ATTEMPTS {
                    self.syncs = m.syncs + 1;
                    self.drains = 0;
                    ConnectAction::SendSync
                } else {
                    self.phase = ConnectPhase::Failed;
                    ConnectAction::Fail(Error::Timeout)
                }
            },
            (ConnectPhase::Syncing, ConnectEvent::SyncError(e)) => {
                self.phase = ConnectPhase::Failed;
                ConnectAction::Fail(e)
            },
            _ => {
                self.phase = ConnectPhase::Failed;
                ConnectAction::Fail(Error::Protocol(ProtocolError::InvalidResponse))
            },
        }
    }

    /// The next line of the round, the next round, or the final timeout.
    fn banner_miss(&mut self) -> (a: ConnectAction)
        requires
            old(self).inv(),
            old(self).phase is AwaitBanner,
        ensures
            (*final(self), a) == connect_banner_miss(*old(self)),
            final(self).inv(),
            a is Reset ==> final(self).phase is NeedReset,
            !(a is Succeed),
            a is Fail <==> final(self).phase is Failed,
    {
        if self.lines + 1 < CONNECT_LINE_READS {
            self.lines = self.lines + 1;
            ConnectAction::ReadLine
        } else if self.resets < CONNECT_RESET_ROUNDS {
            self.phase = ConnectPhase::NeedReset;
            ConnectAction::Reset
        } else {
            self.phase = ConnectPhase::Failed;
            ConnectAction::Fail(Error::Timeout)
        }
    }
}

// ---------------------------------------------------------------------------
// SpiFlashMD5 response post-processing
// ---------------------------------------------------------------------------

/// An ASCII hexadecimal digit.
pub open spec fn is_hex_digit(b: u8) -> bool {
    (0x30 <= b <= 0x39) || (0x41 <= b <= 0x46) || (0x61 <= b <= 0x66)
}

/// The value of an ASCII hexadecimal digit.
pub open spec fn hex_val(b: u8) -> u8 {
    if 0x30 <= b <= 0x39 {
        (b - 0x30) as u8
    } else if 0x41 <= b <= 0x46 {
        (b - 0x41 + 10) as u8
    } else if 0x61 <= b <= 0x66 {
        (b - 0x61 + 10) as u8
    } else {
        0
    }
}

/// Decode the data of a SpiFlashMD5 response into the 16-byte digest.
///
/// A ROM loader answers with 32 ASCII hex digits; the stub answers with
/// the 16 raw bytes.  Any other shape is an invalid response.
pub fn parse_md5_response(data: &[u8], rom_loader: bool) -> (r: Result<Vec<u8>, Error>)
    ensures
        ({
            if rom_loader {
                &&& (r is Ok <==> data@.len() == 32 && (forall|i: int|
                    0 <= i < 32 ==> is_hex_digit(data@[i])))
                &&& (r matches Ok(d) ==> d@.len() == 16 && (forall|i: int|
                    0 <= i < 16 ==> d@[i] == 16 * hex_val(data@[2 * i]) + hex_val(
                        data@[2 * i + 1],
                    )))
            } else {
                &&& (r is Ok <==> data@.len() == 16)
                &&& (r matches Ok(d) ==> d@ == data@)
            }
        }) && (r matches Err(e) ==> e == Error::Protocol(ProtocolError::InvalidResponse)),
{
    if rom_loader {
        if data.len() != 32 {
            return Err(Error::Protocol(ProtocolError::InvalidResponse));
        }
        let mut digest: Vec<u8> = Vec::new();
        let mut i: usize = 0;
        while i < 16
            invariant
                i <= 16,
                data@.len() == 32,
                digest@.len() == i,
                forall|m: int| 0 <= m < 2 * i ==> is_hex_digit(data@[m]),
                forall|m: int|
                    0 <= m < i ==> digest@[m] == 16 * hex_val(data@[2 * m]) + hex_val(
                        data@[2 * m + 1],
                    ),
            decreases 16 - i,
        {
            let hi = data[2 * i];
            let lo = data[2 * i + 1];
            let hv = match hex_digit_value(hi) {
                Some(v) => v,
                None => {
                    return Err(Error::Protocol(ProtocolError::InvalidResponse));
                },
            };
            let lv = match hex_digit_value(lo) {
                Some(v) => v,
                None => {
                    return Err(Error::Protocol(ProtocolError::InvalidResponse));
                },
            };
            digest.push(16 * hv + lv);
            i = i + 1;
        }
        Ok(digest)
    } else {
        if data.len() != 16 {
            return Err(Error::Protocol(ProtocolError::InvalidResponse));
        }
        let mut digest: Vec<u8> = Vec::new();
        let mut i: usize = 0;
        while i < 16
            invariant
                i <= 16,
                data@.len() == 16,
                digest@ == data@.take(i as int),
            decreases 16 - i,
        {
            digest.push(data[i]);
            i = i + 1;
            proof {
                assert(data@.take(i as int) =~= data@.take(i as int - 1).push(
                    data@[i as int - 1],
                ));
            }
        }
        proof {
            assert(data@.take(16) =~= data@);
        }
        Ok(digest)
    }
}

/// The value of one ASCII hex digit, or `None` for any other byte.
fn hex_digit_value(b: u8) -> (r: Option<u8>)
    ensures
        r is Some <==> is_hex_digit(b),
        r matches Some(v) ==> v == hex_val(b) && v < 16,
{
    if 0x30 <= b && b <= 0x39 {
        Some(b - 0x30)
    } else if 0x41 <= b && b <= 0x46 {
        Some(b - 0x41 + 10)
    } else if 0x61 <= b && b <= 0x66 {
        Some(b - 0x61 + 10)
    } else {
        None
    }
}

} // verus!
