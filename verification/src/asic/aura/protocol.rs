//! Aura ASIC wire protocol.
//!
//! Command/response frames are 16-byte records:
//! `magic(4) | chip(1) | reg(1) | lcmd(2 LE) | data(4 LE) | crc32(4 LE over bytes[0..12])`.
//!
//! Command frames are preceded on the wire by a 20-byte all-zero preamble;
//! [`FrameCodec`] emits the preamble when encoding and skips it while
//! frame-syncing on decode. Job frames are 92 bytes and are written in a
//! single write with no inline preamble.

use super::crc::{aura_crc32, crc32};
use super::error::ProtocolError;
use crate::buffer::{advance, as_slice, buffered, has_room, put_bytes};
use crate::wire::{
    be_value, le_bytes, le_value, lemma_le_bytes_len, lemma_le_bytes_of_le_value,
    lemma_value_unfold, lemma_word_round_trip, u16_from_le, u16_to_le,
    u32_from_be, u32_from_le, u32_to_le,
};
use bytes::BytesMut;
use vstd::prelude::*;

verus! {

/// Magic for command frames (TX), wire bytes `78 56 34 12` (little-endian).
pub const COMMAND_MAGIC: u32 = 0x1234_5678;

/// Magic for response frames (RX), wire bytes `54 76 c0 da` (big-endian,
/// unlike the command magic).
pub const RESPONSE_MAGIC: u32 = 0x5476_C0DA;

/// Register byte used on job frames.
pub const JOB_REGISTER: u8 = 0x84;

/// Base low-level command word for job frames (`slot * 0x400 + 0x2a`).
pub const JOB_LCMD_BASE: u16 = 0x002a;

/// Register byte of a hit poll (`0x84 | 0x40`).
pub const HIT_POLL_REGISTER: u8 = 0xc4;

/// Chip byte that addresses every chip on the bus.
pub const BROADCAST_CHIP: u8 = 0x80;

/// Length of a command/response frame in bytes.
pub const FRAME_LEN: usize = 16;

/// Length of the all-zero preamble preceding command frames.
pub const PREAMBLE_LEN: usize = 20;

/// Length of a job/hit frame in bytes.
pub const LONG_FRAME_LEN: usize = 92;

/// Initial PLL_CONFIG value.
pub const PLL_CONFIG_INIT: u32 = 0x0050_2411;

/// Aura register map.
#[derive(Debug, Clone, Copy, PartialEq, Eq, Structural)]
pub enum Register {
    ChipId,
    WorkData,
    Telemetry,
    ClkRef,
    ClkHash,
    VersionBound,
    VersionShift,
    HitConfig,
    HashConfig,
    PllConfig,
    PllFreq,
    VoltageAdc,
    SmallNonce,
    HitCountPrelim,
    HitCount,
    DutyCycle,
    Dvfs,
    Job,
}

impl Register {
    /// The number that stands for this register on the wire.
    pub open spec fn number(self) -> u8 {
        match self {
            Register::ChipId => 0x00,
            Register::WorkData => 0x01,
            Register::Telemetry => 0x02,
            Register::ClkRef => 0x04,
            Register::ClkHash => 0x06,
            Register::VersionBound => 0x10,
            Register::VersionShift => 0x11,
            Register::HitConfig => 0x13,
            Register::HashConfig => 0x14,
            Register::PllConfig => 0x18,
            Register::PllFreq => 0x19,
            Register::VoltageAdc => 0x20,
            Register::SmallNonce => 0x25,
            Register::HitCountPrelim => 0x60,
            Register::HitCount => 0x61,
            Register::DutyCycle => 0x68,
            Register::Dvfs => 0x81,
            Register::Job => 0x84,
        }
    }
}

impl From<Register> for u8 {
    fn from(reg: Register) -> (r: u8) {
        match reg {
            Register::ChipId => 0x00,
            Register::WorkData => 0x01,
            Register::Telemetry => 0x02,
            Register::ClkRef => 0x04,
            Register::ClkHash => 0x06,
            Register::VersionBound => 0x10,
            Register::VersionShift => 0x11,
            Register::HitConfig => 0x13,
            Register::HashConfig => 0x14,
            Register::PllConfig => 0x18,
            Register::PllFreq => 0x19,
            Register::VoltageAdc => 0x20,
            Register::SmallNonce => 0x25,
            Register::HitCountPrelim => 0x60,
            Register::HitCount => 0x61,
            Register::DutyCycle => 0x68,
            Register::Dvfs => 0x81,
            Register::Job => 0x84,
        }
    }
}

impl vstd::std_specs::convert::FromSpecImpl<Register> for u8 {
    open spec fn obeys_from_spec() -> bool {
        true
    }

    open spec fn from_spec(reg: Register) -> u8 {
        reg.number()
    }
}

/// The register with the given number, if there is one.
pub open spec fn register_numbered(value: u8) -> Option<Register> {
    if exists|reg: Register| #[trigger] reg.number() == value {
        Some(choose|reg: Register| #[trigger] reg.number() == value)
    } else {
        None
    }
}

impl TryFrom<u8> for Register {
    type Error = ProtocolError;

    fn try_from(value: u8) -> (r: Result<Self, Self::Error>) {
        let found = match value {
            0x00 => Some(Register::ChipId),
            0x01 => Some(Register::WorkData),
            0x02 => Some(Register::Telemetry),
            0x04 => Some(Register::ClkRef),
            0x06 => Some(Register::ClkHash),
            0x10 => Some(Register::VersionBound),
            0x11 => Some(Register::VersionShift),
            0x13 => Some(Register::HitConfig),
            0x14 => Some(Register::HashConfig),
            0x18 => Some(Register::PllConfig),
            0x19 => Some(Register::PllFreq),
            0x20 => Some(Register::VoltageAdc),
            0x25 => Some(Register::SmallNonce),
            0x60 => Some(Register::HitCountPrelim),
            0x61 => Some(Register::HitCount),
            0x68 => Some(Register::DutyCycle),
            0x81 => Some(Register::Dvfs),
            0x84 => Some(Register::Job),
            _ => None,
        };
        match found {
            Some(reg) => {
                proof {
                    assert(reg.number() == value);
                    lemma_register_round_trip(reg);
                }
                Ok(reg)
            },
            None => Err(ProtocolError::InvalidRegister(value)),
        }
    }
}

impl vstd::std_specs::convert::TryFromSpecImpl<u8> for Register {
    open spec fn obeys_try_from_spec() -> bool {
        true
    }

    open spec fn try_from_spec(value: u8) -> Result<Self, ProtocolError> {
        match register_numbered(value) {
            Some(reg) => Ok(reg),
            None => Err(ProtocolError::InvalidRegister(value)),
        }
    }
}

/// No two registers share a number.
pub proof fn lemma_register_numbers_distinct(a: Register, b: Register)
    ensures
        a.number() == b.number() ==> a == b,
{
}

/// A register is recovered from its number.
pub proof fn lemma_register_round_trip(reg: Register)
    ensures
        register_numbered(reg.number()) == Some(reg),
{
    let found = choose|other: Register| #[trigger] other.number() == reg.number();
    lemma_register_numbers_distinct(reg, found);
}

/// A register read/write command addressed at a chip, or a hit poll.
#[derive(Debug, Clone, Copy, PartialEq, Eq, Structural)]
pub enum Command {
    /// Read `register` from the chip using low-level command word `lcmd`.
    ReadRegister {
        /// Broadcast to all chips (chip byte forced to `0x80`).
        broadcast: bool,
        /// Chip address on the serial bus.
        chip_address: u8,
        /// Target register.
        register: Register,
        /// Low-level command word.
        lcmd: u16,
        /// Command data payload.
        data: u32,
    },
    /// Write `data` to `register` using low-level command word `lcmd`.
    WriteRegister {
        /// Broadcast to all chips (chip byte forced to `0x80`).
        broadcast: bool,
        /// Chip address on the serial bus.
        chip_address: u8,
        /// Target register.
        register: Register,
        /// Low-level command word.
        lcmd: u16,
        /// Command data payload.
        data: u32,
    },
    /// Ask the chip for one queued hit.
    HitPoll {
        /// Chip address on the serial bus.
        chip_address: u8,
    },
}

/// The first twelve bytes of a command frame.
pub open spec fn command_body(chip: u8, reg: u8, lcmd: u16, data: u32) -> Seq<u8> {
    le_bytes(COMMAND_MAGIC as nat, 4) + seq![chip, reg] + le_bytes(lcmd as nat, 2) + le_bytes(
        data as nat,
        4,
    )
}

/// `body` followed by its CRC word.
pub open spec fn sealed(body: Seq<u8>) -> Seq<u8> {
    body + le_bytes(crc32(body) as nat, 4)
}

/// The all-zero bytes that precede a command frame on the wire.
pub open spec fn preamble() -> Seq<u8> {
    Seq::new(PREAMBLE_LEN as nat, |i: int| 0u8)
}

/// The fields of a frame that carries `command`: chip byte, register byte,
/// low-level command word and data. A broadcast takes the chip byte `0x80`.
pub open spec fn command_fields(command: Command) -> (u8, u8, u16, u32) {
    match command {
        Command::ReadRegister { broadcast, chip_address, register, lcmd, data } => (
            if broadcast {
                BROADCAST_CHIP
            } else {
                chip_address
            },
            register.number(),
            lcmd,
            data,
        ),
        Command::WriteRegister { broadcast, chip_address, register, lcmd, data } => (
            if broadcast {
                BROADCAST_CHIP
            } else {
                chip_address
            },
            register.number(),
            lcmd,
            data,
        ),
        Command::HitPoll { chip_address } => (chip_address, HIT_POLL_REGISTER, 0, 0),
    }
}

/// The 16-byte frame of `command`.
pub open spec fn command_frame(command: Command) -> Seq<u8> {
    let (chip, reg, lcmd, data) = command_fields(command);
    sealed(command_body(chip, reg, lcmd, data))
}

/// `command` as it goes over the wire: preamble, then frame.
pub open spec fn on_wire(command: Command) -> Seq<u8> {
    preamble() + command_frame(command)
}

/// A run of commands as it goes over the wire.
pub open spec fn all_on_wire(commands: Seq<Command>) -> Seq<u8>
    decreases commands.len(),
{
    if commands.len() == 0 {
        Seq::empty()
    } else {
        all_on_wire(commands.drop_last()) + on_wire(commands.last())
    }
}

/// Each command takes 36 bytes on the wire.
pub proof fn lemma_on_wire_len(commands: Seq<Command>)
    ensures
        forall|command: Command| #[trigger] on_wire(command).len() == 36,
        all_on_wire(commands).len() == 36 * commands.len(),
    decreases commands.len(),
{
    assert forall|command: Command| #[trigger] on_wire(command).len() == 36 by {
        let (chip, reg, lcmd, data) = command_fields(command);
        lemma_command_body_len(chip, reg, lcmd, data);
    }
    if commands.len() > 0 {
        lemma_on_wire_len(commands.drop_last());
    }
}

/// One more command at the end of a run.
pub proof fn lemma_all_on_wire_push(commands: Seq<Command>, command: Command)
    ensures
        all_on_wire(commands.push(command)) == all_on_wire(commands) + on_wire(command),
{
    assert(commands.push(command).drop_last() =~= commands);
}

/// Commands written one run after the other are one run.
pub proof fn lemma_all_on_wire_concat(a: Seq<Command>, b: Seq<Command>)
    ensures
        all_on_wire(a + b) == all_on_wire(a) + all_on_wire(b),
    decreases b.len(),
{
    if b.len() == 0 {
        assert(a + b =~= a);
        assert(all_on_wire(a) + all_on_wire(b) =~= all_on_wire(a));
    } else {
        assert((a + b).drop_last() =~= a + b.drop_last());
        lemma_all_on_wire_concat(a, b.drop_last());
        assert(all_on_wire(a + b) =~= all_on_wire(a) + all_on_wire(b));
    }
}

proof fn lemma_command_body_len(chip: u8, reg: u8, lcmd: u16, data: u32)
    ensures
        command_body(chip, reg, lcmd, data).len() == 12,
        sealed(command_body(chip, reg, lcmd, data)).len() == FRAME_LEN,
{
    lemma_le_bytes_len(COMMAND_MAGIC as nat, 4);
    lemma_le_bytes_len(lcmd as nat, 2);
    lemma_le_bytes_len(data as nat, 4);
    lemma_le_bytes_len(crc32(command_body(chip, reg, lcmd, data)) as nat, 4);
}

/// A command is read back from its frame: the magic and the CRC are good, and
/// chip, register, low-level command word and data stand in their places.
pub proof fn lemma_command_round_trip(command: Command)
    ensures
        ({
            let frame = command_frame(command);
            let (chip, reg, lcmd, data) = command_fields(command);
            &&& frame.len() == FRAME_LEN
            &&& has_command_magic(frame)
            &&& has_good_crc(frame)
            &&& frame[4] == chip
            &&& frame[5] == reg
            &&& le_value(frame.subrange(6, 8)) == lcmd
            &&& le_value(frame.subrange(8, 12)) == data
        }),
{
    let frame = command_frame(command);
    let (chip, reg, lcmd, data) = command_fields(command);
    let body = command_body(chip, reg, lcmd, data);
    lemma_command_body_len(chip, reg, lcmd, data);
    lemma_le_bytes_len(COMMAND_MAGIC as nat, 4);
    lemma_le_bytes_len(lcmd as nat, 2);
    lemma_le_bytes_len(data as nat, 4);
    lemma_le_bytes_len(crc32(body) as nat, 4);
    lemma_word_round_trip(COMMAND_MAGIC as nat);
    lemma_word_round_trip(lcmd as nat);
    lemma_word_round_trip(data as nat);
    lemma_word_round_trip(crc32(body) as nat);
    assert(frame.take(4) =~= le_bytes(COMMAND_MAGIC as nat, 4));
    assert(frame.subrange(6, 8) =~= le_bytes(lcmd as nat, 2));
    assert(frame.subrange(8, 12) =~= le_bytes(data as nat, 4));
    assert(frame.take(12) =~= body);
    assert(frame.skip(12) =~= le_bytes(crc32(body) as nat, 4));
}

/// In a run of commands, each stands on the wire in a stretch of its own: the
/// one at index `k` takes bytes `36 * k` to `36 * k + 36`.
pub proof fn lemma_command_at(commands: Seq<Command>, k: int)
    requires
        0 <= k < commands.len(),
    ensures
        36 * k + 36 <= all_on_wire(commands).len(),
        all_on_wire(commands).subrange(36 * k, 36 * k + 36) == on_wire(commands[k]),
    decreases commands.len(),
{
    let head = commands.drop_last();
    lemma_on_wire_len(commands);
    lemma_on_wire_len(head);
    if k < head.len() {
        lemma_command_at(head, k);
        assert(all_on_wire(commands).subrange(36 * k, 36 * k + 36) =~= all_on_wire(head).subrange(
            36 * k,
            36 * k + 36,
        ));
    } else {
        assert(all_on_wire(commands).subrange(36 * k, 36 * k + 36) =~= on_wire(commands.last()));
    }
}

impl Command {
    /// Chip byte, register byte, low-level command word and data of the frame
    /// that carries this command.
    fn fields(&self) -> (r: (u8, u8, u16, u32))
        ensures
            r == command_fields(*self),
    {
        match *self {
            Command::ReadRegister { broadcast, chip_address, register, lcmd, data } => (
                if broadcast {
                    BROADCAST_CHIP
                } else {
                    chip_address
                },
                u8::from(register),
                lcmd,
                data,
            ),
            Command::WriteRegister { broadcast, chip_address, register, lcmd, data } => (
                if broadcast {
                    BROADCAST_CHIP
                } else {
                    chip_address
                },
                u8::from(register),
                lcmd,
                data,
            ),
            Command::HitPoll { chip_address } => (chip_address, HIT_POLL_REGISTER, 0, 0),
        }
    }

    /// Encode into a 16-byte frame.
    ///
    /// Layout: `magic(4) | chip(1) | reg(1) | lcmd(2 LE) | data(4 LE) |
    /// crc32(4 LE over bytes[0..12])`.
    pub fn encode(&self) -> (frame: [u8; FRAME_LEN])
        ensures
            frame@ == command_frame(*self),
    {
        let (chip, reg, lcmd, data) = self.fields();
        let m = u32_to_le(COMMAND_MAGIC);
        let l = u16_to_le(lcmd);
        let d = u32_to_le(data);
        let body: [u8; 12] = [m[0], m[1], m[2], m[3], chip, reg, l[0], l[1], d[0], d[1], d[2], d[3]];
        assert(body@ =~= command_body(chip, reg, lcmd, data)) by {
            lemma_command_body_len(chip, reg, lcmd, data);
        }
        let c = u32_to_le(aura_crc32(&body));
        let frame: [u8; FRAME_LEN] = [
            m[0],
            m[1],
            m[2],
            m[3],
            chip,
            reg,
            l[0],
            l[1],
            d[0],
            d[1],
            d[2],
            d[3],
            c[0],
            c[1],
            c[2],
            c[3],
        ];
        assert(frame@ =~= sealed(body@));
        frame
    }

    /// Append the 20-byte zero preamble followed by the 16-byte frame to
    /// `dst`, ready for a single write.
    pub fn encode_with_preamble(&self, dst: &mut BytesMut)
        requires
            has_room(*old(dst), 36),
        ensures
            buffered(*final(dst)) == buffered(*old(dst)) + on_wire(*self),
    {
        put_bytes(dst, 0, PREAMBLE_LEN);
        let frame = self.encode();
        assert(frame@.len() == FRAME_LEN);
        dst.extend_from_slice(&frame);
        assert(buffered(*dst) =~= buffered(*old(dst)) + on_wire(*self));
    }
}

/// A parsed 16-byte response frame.
#[derive(Debug, Clone, Copy, PartialEq, Eq, Structural)]
pub struct Response {
    /// Chip address that answered.
    pub chip: u8,
    /// Register the response is for.
    pub reg: u8,
    /// Low-level command word echoed by the chip.
    pub lcmd: u16,
    /// Response data payload.
    pub data: u32,
}

/// `s` begins with the response magic.
pub open spec fn has_response_magic(s: Seq<u8>) -> bool {
    s.len() >= 4 && be_value(s.take(4)) == RESPONSE_MAGIC
}

/// `s` ends in a word that is the CRC of everything before it.
pub open spec fn has_good_crc(s: Seq<u8>) -> bool {
    s.len() >= 4 && le_value(s.skip(s.len() - 4)) == crc32(s.take(s.len() - 4))
}

/// `s` is an intact response frame.
pub open spec fn is_response(s: Seq<u8>) -> bool {
    s.len() == FRAME_LEN && has_response_magic(s) && has_good_crc(s)
}

/// The fields of the response frame `s`.
pub open spec fn response_fields(s: Seq<u8>) -> Response {
    Response {
        chip: s[4],
        reg: s[5],
        lcmd: le_value(s.subrange(6, 8)) as u16,
        data: le_value(s.subrange(8, 12)) as u32,
    }
}

/// The frame with which a chip sends `response`.
pub open spec fn response_frame(response: Response) -> Seq<u8> {
    sealed(
        seq![0x54u8, 0x76u8, 0xc0u8, 0xdau8, response.chip, response.reg] + le_bytes(
            response.lcmd as nat,
            2,
        ) + le_bytes(response.data as nat, 4),
    )
}

/// Parsing undoes framing: every response comes back from its frame.
pub proof fn lemma_response_round_trip(response: Response)
    ensures
        is_response(response_frame(response)),
        response_fields(response_frame(response)) == response,
{
    let s = response_frame(response);
    let body = seq![0x54u8, 0x76u8, 0xc0u8, 0xdau8, response.chip, response.reg] + le_bytes(
        response.lcmd as nat,
        2,
    ) + le_bytes(response.data as nat, 4);
    lemma_le_bytes_len(response.lcmd as nat, 2);
    lemma_le_bytes_len(response.data as nat, 4);
    lemma_le_bytes_len(crc32(body) as nat, 4);
    lemma_value_unfold(s.take(4));
    lemma_word_round_trip(response.lcmd as nat);
    lemma_word_round_trip(response.data as nat);
    lemma_word_round_trip(crc32(body) as nat);
    assert(s.take(12) =~= body);
    assert(s.skip(12) =~= le_bytes(crc32(body) as nat, 4));
    assert(s.subrange(6, 8) =~= le_bytes(response.lcmd as nat, 2));
    assert(s.subrange(8, 12) =~= le_bytes(response.data as nat, 4));
}

/// Framing undoes parsing: an intact response frame is the frame of the
/// fields it carries, so no two intact frames parse alike.
pub proof fn lemma_response_frame_unique(s: Seq<u8>)
    requires
        is_response(s),
    ensures
        response_frame(response_fields(s)) == s,
{
    lemma_value_unfold(s.take(4));
    lemma_value_unfold(s.subrange(6, 8));
    lemma_value_unfold(s.subrange(8, 12));
    lemma_le_bytes_of_le_value(s.subrange(6, 8));
    lemma_le_bytes_of_le_value(s.subrange(8, 12));
    lemma_le_bytes_of_le_value(s.skip(12));
    let r = response_fields(s);
    assert(s.take(4)[0] == 0x54 && s.take(4)[1] == 0x76 && s.take(4)[2] == 0xc0 && s.take(4)[3]
        == 0xda);
    assert(s.take(12) =~= seq![0x54u8, 0x76u8, 0xc0u8, 0xdau8, r.chip, r.reg] + le_bytes(
        r.lcmd as nat,
        2,
    ) + le_bytes(r.data as nat, 4));
    assert(s =~= s.take(12) + s.skip(12));
}

impl Response {
    /// Parse and validate a 16-byte response frame.
    ///
    /// Validates the length, response magic and CRC (over bytes `[0..12]`)
    /// before extracting the fields.
    pub fn parse(frame: &[u8]) -> (r: Result<Self, ProtocolError>)
        ensures
            match r {
                Ok(response) => is_response(frame@) && response == response_fields(frame@),
                Err(ProtocolError::InvalidFrameLength { expected, found }) => {
                    &&& frame@.len() != FRAME_LEN
                    &&& expected == FRAME_LEN
                    &&& found == frame@.len()
                },
                Err(ProtocolError::BadMagic { expected, found }) => {
                    &&& frame@.len() == FRAME_LEN
                    &&& !has_response_magic(frame@)
                    &&& expected == RESPONSE_MAGIC
                    &&& found == be_value(frame@.take(4))
                },
                Err(ProtocolError::BadCrc { expected, found }) => {
                    &&& frame@.len() == FRAME_LEN
                    &&& has_response_magic(frame@)
                    &&& !has_good_crc(frame@)
                    &&& expected == crc32(frame@.take(12))
                    &&& found == le_value(frame@.skip(12))
                },
                Err(_) => false,
            },
    {
        if frame.len() != FRAME_LEN {
            return Err(
                ProtocolError::InvalidFrameLength { expected: FRAME_LEN, found: frame.len() },
            );
        }
        let magic: u32 = u32_from_be(frame, 0);
        assert(frame@.take(4) =~= frame@.subrange(0, 4));
        if magic != RESPONSE_MAGIC {
            return Err(ProtocolError::BadMagic { expected: RESPONSE_MAGIC, found: magic });
        }
        let stored: u32 = u32_from_le(frame, 12);
        let computed: u32 = aura_crc32(vstd::slice::slice_subrange(frame, 0, 12));
        assert(frame@.take(12) =~= frame@.subrange(0, 12));
        assert(frame@.skip(12) =~= frame@.subrange(12, 16));
        if stored != computed {
            return Err(ProtocolError::BadCrc { expected: computed, found: stored });
        }
        Ok(
            Self {
                chip: frame[4],
                reg: frame[5],
                lcmd: u16_from_le(frame, 6),
                data: u32_from_le(frame, 8),
            },
        )
    }
}

/// Aura job frame (92 bytes, single write, no inline preamble).
pub struct JobFrame;

/// The first 88 bytes of a job frame. The low-level command word is
/// `slot * 0x400 + 0x2a` in sixteen bits, so slots 64 apart share one.
pub open spec fn job_body(
    chip: u8,
    slot: u8,
    job_id: u32,
    prevhash: Seq<u8>,
    merkle: Seq<u8>,
    ntime: u32,
    nbits: u32,
    nonce_start: u32,
) -> Seq<u8> {
    le_bytes(COMMAND_MAGIC as nat, 4) + seq![chip, JOB_REGISTER] + le_bytes(
        ((slot * 0x400 + JOB_LCMD_BASE) % 0x1_0000) as nat,
        2,
    ) + le_bytes(job_id as nat, 4) + prevhash + merkle + le_bytes(ntime as nat, 4) + le_bytes(
        nbits as nat,
        4,
    ) + le_bytes(nonce_start as nat, 4)
}

impl JobFrame {
    /// Encode a job frame.
    ///
    /// Layout: `magic(4) | chip(1) | 0x84(1) | lcmd(2 LE) | job_id(4 LE) |
    /// prevhash(32) | merkle(32) | ntime(4 LE) | nbits(4 LE) |
    /// nonce_start(4 LE) | crc32(4 LE over bytes[0..88])`, with
    /// `lcmd = slot * 0x400 + 0x2a`.
    pub fn encode(
        chip: u8,
        slot: u8,
        job_id: u32,
        prevhash: &[u8; 32],
        merkle: &[u8; 32],
        ntime: u32,
        nbits: u32,
        nonce_start: u32,
    ) -> (frame: [u8; LONG_FRAME_LEN])
        ensures
            frame@ == sealed(
                job_body(chip, slot, job_id, prevhash@, merkle@, ntime, nbits, nonce_start),
            ),
    {
        let lcmd: u16 = (slot % 64) as u16 * 0x400 + JOB_LCMD_BASE;
        let mut bytes: Vec<u8> = Vec::new();
        append(&mut bytes, &u32_to_le(COMMAND_MAGIC));
        append(&mut bytes, &[chip, JOB_REGISTER]);
        append(&mut bytes, &u16_to_le(lcmd));
        append(&mut bytes, &u32_to_le(job_id));
        append(&mut bytes, prevhash);
        append(&mut bytes, merkle);
        append(&mut bytes, &u32_to_le(ntime));
        append(&mut bytes, &u32_to_le(nbits));
        append(&mut bytes, &u32_to_le(nonce_start));
        proof {
            let magic = le_bytes(COMMAND_MAGIC as nat, 4);
            assert(Seq::<u8>::empty() + magic =~= magic);
            lemma_job_frame_len(chip, slot, job_id, prevhash@, merkle@, ntime, nbits, nonce_start);
        }
        let crc: u32 = aura_crc32(bytes.as_slice());
        append(&mut bytes, &u32_to_le(crc));
        long_frame(bytes.as_slice())
    }
}

/// Append `more` to `bytes`.
fn append(bytes: &mut Vec<u8>, more: &[u8])
    ensures
        final(bytes)@ == old(bytes)@ + more@,
{
    bytes.extend_from_slice(more);
    assert(bytes@ =~= old(bytes)@ + more@);
}

/// The 92 bytes of `bytes` as an array.
fn long_frame(bytes: &[u8]) -> (frame: [u8; LONG_FRAME_LEN])
    requires
        bytes@.len() == LONG_FRAME_LEN,
    ensures
        frame@ == bytes@,
{
    let mut frame: [u8; LONG_FRAME_LEN] = [0u8; LONG_FRAME_LEN];
    let mut i: usize = 0;
    while i < LONG_FRAME_LEN
        invariant
            i <= LONG_FRAME_LEN,
            bytes@.len() == LONG_FRAME_LEN,
            frame@.len() == LONG_FRAME_LEN,
            frame@.take(i as int) == bytes@.take(i as int),
        decreases LONG_FRAME_LEN - i,
    {
        frame[i] = bytes[i];
        assert(frame@.take(i + 1) =~= bytes@.take(i + 1));
        i = i + 1;
    }
    assert(frame@ =~= frame@.take(i as int));
    assert(bytes@ =~= bytes@.take(i as int));
    frame
}

/// A job is read back from its frame: the magic and the CRC are good, and
/// every field stands in its place.
pub proof fn lemma_job_round_trip(
    chip: u8,
    slot: u8,
    job_id: u32,
    prevhash: Seq<u8>,
    merkle: Seq<u8>,
    ntime: u32,
    nbits: u32,
    nonce_start: u32,
)
    requires
        prevhash.len() == 32,
        merkle.len() == 32,
    ensures
        ({
            let frame = sealed(
                job_body(chip, slot, job_id, prevhash, merkle, ntime, nbits, nonce_start),
            );
            &&& frame.len() == LONG_FRAME_LEN
            &&& has_command_magic(frame)
            &&& has_good_crc(frame)
            &&& frame[4] == chip
            &&& frame[5] == JOB_REGISTER
            &&& le_value(frame.subrange(6, 8)) == (slot % 64) * 0x400 + JOB_LCMD_BASE
            &&& le_value(frame.subrange(8, 12)) == job_id
            &&& frame.subrange(12, 44) == prevhash
            &&& frame.subrange(44, 76) == merkle
            &&& le_value(frame.subrange(76, 80)) == ntime
            &&& le_value(frame.subrange(80, 84)) == nbits
            &&& le_value(frame.subrange(84, 88)) == nonce_start
        }),
{
    let body = job_body(chip, slot, job_id, prevhash, merkle, ntime, nbits, nonce_start);
    let frame = sealed(body);
    let lcmd = ((slot * 0x400 + JOB_LCMD_BASE) % 0x1_0000) as nat;
    lemma_job_frame_len(chip, slot, job_id, prevhash, merkle, ntime, nbits, nonce_start);
    lemma_le_bytes_len(COMMAND_MAGIC as nat, 4);
    lemma_le_bytes_len(lcmd, 2);
    lemma_le_bytes_len(job_id as nat, 4);
    lemma_le_bytes_len(ntime as nat, 4);
    lemma_le_bytes_len(nbits as nat, 4);
    lemma_le_bytes_len(nonce_start as nat, 4);
    lemma_le_bytes_len(crc32(body) as nat, 4);
    lemma_word_round_trip(COMMAND_MAGIC as nat);
    lemma_word_round_trip(lcmd);
    lemma_word_round_trip(job_id as nat);
    lemma_word_round_trip(ntime as nat);
    lemma_word_round_trip(nbits as nat);
    lemma_word_round_trip(nonce_start as nat);
    lemma_word_round_trip(crc32(body) as nat);
    assert(frame.take(4) =~= le_bytes(COMMAND_MAGIC as nat, 4));
    assert(frame.subrange(6, 8) =~= le_bytes(lcmd, 2));
    assert(frame.subrange(8, 12) =~= le_bytes(job_id as nat, 4));
    assert(frame.subrange(12, 44) =~= prevhash);
    assert(frame.subrange(44, 76) =~= merkle);
    assert(frame.subrange(76, 80) =~= le_bytes(ntime as nat, 4));
    assert(frame.subrange(80, 84) =~= le_bytes(nbits as nat, 4));
    assert(frame.subrange(84, 88) =~= le_bytes(nonce_start as nat, 4));
    assert(frame.take(88) =~= body);
    assert(frame.skip(88) =~= le_bytes(crc32(body) as nat, 4));
}

proof fn lemma_job_frame_len(
    chip: u8,
    slot: u8,
    job_id: u32,
    prevhash: Seq<u8>,
    merkle: Seq<u8>,
    ntime: u32,
    nbits: u32,
    nonce_start: u32,
)
    requires
        prevhash.len() == 32,
        merkle.len() == 32,
    ensures
        sealed(job_body(chip, slot, job_id, prevhash, merkle, ntime, nbits, nonce_start)).len()
            == LONG_FRAME_LEN,
{
    lemma_le_bytes_len(COMMAND_MAGIC as nat, 4);
    lemma_le_bytes_len(((slot * 0x400 + JOB_LCMD_BASE) % 0x1_0000) as nat, 2);
    lemma_le_bytes_len(job_id as nat, 4);
    lemma_le_bytes_len(ntime as nat, 4);
    lemma_le_bytes_len(nbits as nat, 4);
    lemma_le_bytes_len(nonce_start as nat, 4);
    lemma_le_bytes_len(
        crc32(job_body(chip, slot, job_id, prevhash, merkle, ntime, nbits, nonce_start)) as nat,
        4,
    );
}

/// A parsed 92-byte hit (winning nonce) response.
#[derive(Debug, PartialEq, Eq)]
pub struct HitFrame {
    /// Chip that reported the hit.
    pub chip: u8,
    /// Winning nonce (absolute bytes `[84..88]`, the last 4 bytes of the
    /// header).
    pub nonce: u32,
    /// The 80-byte winning block header (frame bytes `[8..88]`).
    pub header: [u8; 80],
}

impl Clone for HitFrame {
    fn clone(&self) -> (r: Self)
        ensures
            r == *self,
    {
        HitFrame { chip: self.chip, nonce: self.nonce, header: self.header }
    }
}

/// What a hit frame reports.
pub struct Hit {
    /// Chip that reported the hit.
    pub chip: u8,
    /// Winning nonce.
    pub nonce: u32,
    /// Winning block header.
    pub header: Seq<u8>,
}

impl View for HitFrame {
    type V = Hit;

    open spec fn view(&self) -> Hit {
        Hit { chip: self.chip, nonce: self.nonce, header: self.header@ }
    }
}

/// `s` begins with the command magic.
pub open spec fn has_command_magic(s: Seq<u8>) -> bool {
    s.len() >= 4 && le_value(s.take(4)) == COMMAND_MAGIC
}

/// `s` is an intact hit frame.
pub open spec fn is_hit(s: Seq<u8>) -> bool {
    s.len() == LONG_FRAME_LEN && has_command_magic(s) && has_good_crc(s)
}

/// What the hit frame `s` reports: the chip byte, the header in bytes
/// `[8..88]` and the nonce that the header ends in.
pub open spec fn hit_fields(s: Seq<u8>) -> Hit {
    Hit {
        chip: s[4],
        nonce: le_value(s.subrange(84, 88)) as u32,
        header: s.subrange(8, 88),
    }
}

/// The frame with which a chip reports a winning header. The register,
/// `nbits` and `id_hi_seq` bytes are the chip's to choose.
pub open spec fn hit_frame(chip: u8, reg: u8, nbits: u8, id_hi_seq: u8, header: Seq<u8>) -> Seq<
    u8,
> {
    sealed(le_bytes(COMMAND_MAGIC as nat, 4) + seq![chip, reg, nbits, id_hi_seq] + header)
}

/// Parsing undoes framing: the chip and the header come back from a hit
/// frame, and the nonce is the word that the header ends in.
pub proof fn lemma_hit_round_trip(chip: u8, reg: u8, nbits: u8, id_hi_seq: u8, header: Seq<u8>)
    requires
        header.len() == 80,
    ensures
        is_hit(hit_frame(chip, reg, nbits, id_hi_seq, header)),
        hit_fields(hit_frame(chip, reg, nbits, id_hi_seq, header)) == (Hit {
            chip,
            nonce: le_value(header.skip(76)) as u32,
            header,
        }),
{
    let s = hit_frame(chip, reg, nbits, id_hi_seq, header);
    let body = le_bytes(COMMAND_MAGIC as nat, 4) + seq![chip, reg, nbits, id_hi_seq] + header;
    lemma_le_bytes_len(COMMAND_MAGIC as nat, 4);
    lemma_le_bytes_len(crc32(body) as nat, 4);
    lemma_word_round_trip(COMMAND_MAGIC as nat);
    lemma_word_round_trip(crc32(body) as nat);
    assert(s.take(4) =~= le_bytes(COMMAND_MAGIC as nat, 4));
    assert(s.take(88) =~= body);
    assert(s.skip(88) =~= le_bytes(crc32(body) as nat, 4));
    assert(s.subrange(8, 88) =~= header);
    assert(s.subrange(84, 88) =~= header.skip(76));
}

impl HitFrame {
    /// Parse and validate a 92-byte hit frame.
    ///
    /// Layout: `magic(4) | chip(1) | reg(1) | nbits(1) | id_hi_seq(1) |
    /// header(80) | crc32(4 LE over bytes[0..88])`. The nonce is the last 4
    /// bytes of the header, at absolute bytes `[84..88]`. An empty hit FIFO
    /// yields no response at all, so this only sees real hits.
    pub fn parse(frame: &[u8]) -> (r: Result<Self, ProtocolError>)
        ensures
            match r {
                Ok(hit) => is_hit(frame@) && hit@ == hit_fields(frame@),
                Err(ProtocolError::InvalidFrameLength { expected, found }) => {
                    &&& frame@.len() != LONG_FRAME_LEN
                    &&& expected == LONG_FRAME_LEN
                    &&& found == frame@.len()
                },
                Err(ProtocolError::BadMagic { expected, found }) => {
                    &&& frame@.len() == LONG_FRAME_LEN
                    &&& !has_command_magic(frame@)
                    &&& expected == COMMAND_MAGIC
                    &&& found == le_value(frame@.take(4))
                },
                Err(ProtocolError::BadCrc { expected, found }) => {
                    &&& frame@.len() == LONG_FRAME_LEN
                    &&& has_command_magic(frame@)
                    &&& !has_good_crc(frame@)
                    &&& expected == crc32(frame@.take(88))
                    &&& found == le_value(frame@.skip(88))
                },
                Err(_) => false,
            },
    {
        if frame.len() != LONG_FRAME_LEN {
            return Err(
                ProtocolError::InvalidFrameLength { expected: LONG_FRAME_LEN, found: frame.len() },
            );
        }
        let magic: u32 = u32_from_le(frame, 0);
        assert(frame@.take(4) =~= frame@.subrange(0, 4));
        if magic != COMMAND_MAGIC {
            return Err(ProtocolError::BadMagic { expected: COMMAND_MAGIC, found: magic });
        }
        let stored: u32 = u32_from_le(frame, 88);
        let computed: u32 = aura_crc32(vstd::slice::slice_subrange(frame, 0, 88));
        assert(frame@.take(88) =~= frame@.subrange(0, 88));
        assert(frame@.skip(88) =~= frame@.subrange(88, 92));
        if stored != computed {
            return Err(ProtocolError::BadCrc { expected: computed, found: stored });
        }
        let mut header: [u8; 80] = [0u8; 80];
        let mut i: usize = 0;
        while i < 80
            invariant
                i <= 80,
                frame@.len() == LONG_FRAME_LEN,
                header@.len() == 80,
                header@.take(i as int) == frame@.subrange(8, 8 + i),
            decreases 80 - i,
        {
            header[i] = frame[8 + i];
            assert(header@.take(i + 1) =~= frame@.subrange(8, 8 + i + 1));
            i = i + 1;
        }
        assert(header@ =~= header@.take(80));
        let nonce: u32 = u32_from_le(frame, 84);
        Ok(Self { chip: frame[4], nonce, header })
    }
}

/// Encode a PLL N divider into the PLL_FREQ wire word (`N << 20`, so only the
/// low twelve bits of `N` reach the register).
pub fn pll_freq_word(n: u32) -> (word: u32)
    ensures
        word == (n % 0x1000) * 0x10_0000,
{
    assert(n << 20 == (n % 0x1000) * 0x10_0000) by (bit_vector);
    n << 20
}

/// Codec for Aura command/response frames.
///
/// Encoding a [`Command`] emits the 20-byte all-zero preamble followed by the
/// 16-byte command frame. Decoding skips preamble bytes and frame-syncs on
/// the response magic, yielding [`Response`] frames.
#[derive(Default)]
pub struct FrameCodec;

/// The response magic stands at `s[i..i + 4]`.
pub open spec fn magic_at(s: Seq<u8>, i: int) -> bool {
    0 <= i && i + 4 <= s.len() && be_value(s.subrange(i, i + 4)) == RESPONSE_MAGIC
}

/// The response magic stands at `pos` and nowhere before it.
pub open spec fn first_magic_at(s: Seq<u8>, pos: int) -> bool {
    magic_at(s, pos) && forall|i: int| 0 <= i < pos ==> !#[trigger] magic_at(s, i)
}

/// What one round of decoding makes of the buffered bytes `s`: the response
/// it yields, if any, and the bytes that stay.
///
/// While the frame behind the first magic is not complete, everything waits.
/// An intact frame is taken out, and what stands before it goes; a damaged one
/// loses its first byte, to sync again behind it. With no magic in sight the
/// last three bytes stay, because the magic may straddle the end of the buffer.
pub open spec fn decoded(s: Seq<u8>, out: Option<Response>, rest: Seq<u8>) -> bool {
    if s.len() < FRAME_LEN {
        out is None && rest == s
    } else if exists|pos: int| first_magic_at(s, pos) {
        let pos = choose|pos: int| first_magic_at(s, pos);
        if s.len() < pos + FRAME_LEN {
            out is None && rest == s
        } else if is_response(s.subrange(pos, pos + FRAME_LEN)) {
            &&& out == Some(response_fields(s.subrange(pos, pos + FRAME_LEN)))
            &&& rest == s.skip(pos + FRAME_LEN)
        } else {
            out is None && rest == s.skip(pos + 1)
        }
    } else {
        out is None && rest == s.skip(s.len() - 3)
    }
}

/// There is at most one first magic.
proof fn lemma_first_magic_unique(s: Seq<u8>, a: int, b: int)
    requires
        first_magic_at(s, a),
        first_magic_at(s, b),
    ensures
        a == b,
{
}

impl FrameCodec {
    /// Append `command` to `dst`: preamble, then frame. Never fails.
    pub fn encode(&mut self, command: Command, dst: &mut BytesMut) -> (r: Result<
        (),
        std::io::Error,
    >)
        requires
            has_room(*old(dst), 36),
        ensures
            r is Ok,
            buffered(*final(dst)) == buffered(*old(dst)) + on_wire(command),
    {
        command.encode_with_preamble(dst);
        Ok(())
    }

    /// Take the first response frame out of `src`, skipping preamble and junk
    /// before it. Never fails; a damaged frame yields nothing this round.
    pub fn decode(&mut self, src: &mut BytesMut) -> (r: Result<Option<Response>, std::io::Error>)
        ensures
            r matches Ok(out) && decoded(buffered(*old(src)), out, buffered(*final(src))),
    {
        let ghost s = buffered(*src);
        let len: usize = src.len();
        if len < FRAME_LEN {
            return Ok(None);
        }
        let mut pos: usize = 0;
        let mut synced = false;
        while pos <= len - 4 && !synced
            invariant
                len >= FRAME_LEN,
                s == buffered(*src),
                len == s.len(),
                pos <= len,
                synced ==> magic_at(s, pos as int),
                forall|i: int| 0 <= i < pos ==> !#[trigger] magic_at(s, i),
            decreases len - pos + (if synced { 0int } else { 1int }),
        {
            let word: u32 = u32_from_be(as_slice(src), pos);
            if word == RESPONSE_MAGIC {
                synced = true;
            } else {
                pos = pos + 1;
            }
        }
        if !synced {
            assert forall|i: int| !first_magic_at(s, i) by {
                assert(magic_at(s, i) ==> i < pos);
            }
            advance(src, len - 3);
            return Ok(None);
        }
        proof {
            assert(first_magic_at(s, pos as int));
            lemma_first_magic_unique(s, pos as int, choose|p: int| first_magic_at(s, p));
        }
        if len - pos < FRAME_LEN {
            return Ok(None);
        }
        let frame = vstd::slice::slice_subrange(as_slice(src), pos, pos + FRAME_LEN);
        match Response::parse(frame) {
            Ok(response) => {
                advance(src, pos + FRAME_LEN);
                Ok(Some(response))
            },
            Err(_) => {
                advance(src, pos + 1);
                Ok(None)
            },
        }
    }
}

/// A response is read back by the codec: with its frame behind any run of
/// zero bytes, decoding yields exactly that response and leaves what follows.
pub proof fn lemma_codec_reads_response_back(
    count: nat,
    response: Response,
    tail: Seq<u8>,
    out: Option<Response>,
    rest: Seq<u8>,
)
    requires
        decoded(
            Seq::new(count, |i: int| 0u8) + (response_frame(response) + tail),
            out,
            rest,
        ),
    ensures
        out == Some(response),
        rest == tail,
{
    let s = Seq::new(count, |i: int| 0u8) + (response_frame(response) + tail);
    let frame = response_frame(response);
    lemma_response_round_trip(response);
    assert(s.subrange(count as int, count + FRAME_LEN) =~= frame);
    assert(s.subrange(count as int, (count + 4) as int) =~= frame.take(4));
    assert(magic_at(s, count as int));
    assert forall|i: int| 0 <= i < count implies !#[trigger] magic_at(s, i) by {
        if magic_at(s, i) {
            lemma_value_unfold(s.subrange(i, i + 4));
            assert(s.subrange(i, i + 4)[0] == 0u8);
        }
    }
    assert(first_magic_at(s, count as int));
    lemma_first_magic_unique(s, count as int, choose|p: int| first_magic_at(s, p));
    assert(s.skip(count + FRAME_LEN) =~= tail);
}

} // verus!
