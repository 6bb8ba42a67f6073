//! What stands where in the frames, byte by byte, and what the bus makes of
//! them.

use super::crc::crc32;
use super::error::ProtocolError;
use super::framing::{drain, Drained};
use super::job::{job_frame, job_frames, HashTask};
use super::protocol::{
    command_frame, decoded, first_magic_at, has_command_magic, has_good_crc,
    has_response_magic, hit_fields, is_hit, is_response, job_body, lemma_command_round_trip,
    lemma_job_round_trip, lemma_on_wire_len, lemma_register_round_trip, magic_at, on_wire, register_numbered, response_fields,
    sealed, Command, Register, Response,
};
use crate::wire::{le_value, lemma_value_unfold};
use vstd::prelude::*;
use vstd::std_specs::convert::{FromSpec, TryFromSpec};

verus! {

/// The register map: which number stands for which register.
pub proof fn lemma_register_map(reg: Register)
    ensures
        reg.number() == (match reg {
            Register::ChipId => 0x00u8,
            Register::WorkData => 0x01,
            Register::Telemetry => 0x02,
            Register::ClkRef => 0x04,
            Register::ClkHash => 0x06,
            Register::VersionBound => 0x10,
            Register::VersionShift => 0x11,
            Register::HitConfig => 0x13,
            Register::HashConfig => 0x14,
            Register::PllConfig => 0x18,
            Register::PllFreq => 0x19,
            Register::VoltageAdc => 0x20,
            Register::SmallNonce => 0x25,
            Register::HitCountPrelim => 0x60,
            Register::HitCount => 0x61,
            Register::DutyCycle => 0x68,
            Register::Dvfs => 0x81,
            Register::Job => 0x84,
        }),
{
}

/// A number names a register exactly if some register has it, and then that
/// one.
pub proof fn lemma_numbers_name_registers(value: u8)
    ensures
        register_numbered(value) matches Some(reg) ==> reg.number() == value,
        register_numbered(value) is None ==> forall|reg: Register| #[trigger] reg.number() != value,
{
}

/// Conversions go by the register map: a register becomes its number, and a
/// number becomes its register or an error that names the number.
pub proof fn lemma_register_conversions(reg: Register, value: u8, io: std::io::Error)
    ensures
        <u8 as FromSpec<Register>>::obeys_from_spec(),
        <u8 as FromSpec<Register>>::from_spec(reg) == reg.number(),
        <Register as TryFromSpec<u8>>::obeys_try_from_spec(),
        <Register as TryFromSpec<u8>>::try_from_spec(reg.number()) == Ok::<
            Register,
            ProtocolError,
        >(reg),
        (forall|r: Register| #[trigger] r.number() != value) ==> <Register as TryFromSpec<
            u8,
        >>::try_from_spec(value) == Err::<Register, ProtocolError>(
            ProtocolError::InvalidRegister(value),
        ),
        <ProtocolError as FromSpec<std::io::Error>>::obeys_from_spec(),
        <ProtocolError as FromSpec<std::io::Error>>::from_spec(io) == ProtocolError::Io(io),
{
    lemma_register_round_trip(reg);
}

/// The little-endian word that four bytes spell.
pub open spec fn word(a: u8, b: u8, c: u8, d: u8) -> int {
    a + 0x100 * b + 0x1_0000 * c + 0x100_0000 * d
}

/// A command frame, byte by byte: the magic `78 56 34 12`, the chip (`0x80`
/// for all chips), the register, the low-level command word, the data and the
/// CRC of all that. A hit poll addresses register `0xc4` with zeros.
pub proof fn lemma_command_bytes(command: Command)
    ensures
        ({
            let f = command_frame(command);
            &&& f.len() == 16
            &&& f[0] == 0x78 && f[1] == 0x56 && f[2] == 0x34 && f[3] == 0x12
            &&& word(f[12], f[13], f[14], f[15]) == crc32(f.take(12))
            &&& match command {
                Command::ReadRegister { broadcast, chip_address, register, lcmd, data } => {
                    &&& f[4] == if broadcast { 0x80 } else { chip_address }
                    &&& f[5] == register.number()
                    &&& f[6] + 0x100 * f[7] == lcmd
                    &&& word(f[8], f[9], f[10], f[11]) == data
                },
                Command::WriteRegister { broadcast, chip_address, register, lcmd, data } => {
                    &&& f[4] == if broadcast { 0x80 } else { chip_address }
                    &&& f[5] == register.number()
                    &&& f[6] + 0x100 * f[7] == lcmd
                    &&& word(f[8], f[9], f[10], f[11]) == data
                },
                Command::HitPoll { chip_address } => {
                    &&& f[4] == chip_address
                    &&& f[5] == 0xc4
                    &&& f[6] == 0 && f[7] == 0
                    &&& f[8] == 0 && f[9] == 0 && f[10] == 0 && f[11] == 0
                },
            }
        }),
{
    let f = command_frame(command);
    lemma_command_round_trip(command);
    lemma_value_unfold(f.take(4));
    lemma_value_unfold(f.subrange(6, 8));
    lemma_value_unfold(f.subrange(8, 12));
    lemma_value_unfold(f.skip(12));
    assert(f.take(4)[0] == f[0] && f.take(4)[1] == f[1] && f.take(4)[2] == f[2] && f.take(4)[3]
        == f[3]);
    assert(f.subrange(6, 8)[0] == f[6] && f.subrange(6, 8)[1] == f[7]);
    let d = f.subrange(8, 12);
    assert(d[0] == f[8] && d[1] == f[9] && d[2] == f[10] && d[3] == f[11]);
    let c = f.skip(12);
    assert(c[0] == f[12] && c[1] == f[13] && c[2] == f[14] && c[3] == f[15]);
}

/// On the wire a command is twenty zero bytes and then its frame.
pub proof fn lemma_wire_bytes(command: Command)
    ensures
        on_wire(command).len() == 36,
        forall|i: int| 0 <= i < 20 ==> #[trigger] on_wire(command)[i] == 0,
        on_wire(command).skip(20) == command_frame(command),
{
    lemma_on_wire_len(Seq::empty());
    lemma_command_bytes(command);
    assert(on_wire(command).skip(20) =~= command_frame(command));
}

/// A frame's CRC is good exactly if its last four bytes spell the CRC of those
/// before them, whatever the frame begins with.
pub proof fn lemma_good_crc(s: Seq<u8>)
    requires
        s.len() >= 4,
    ensures
        ({
            let n = s.len() as int;
            has_good_crc(s) <==> word(s[n - 4], s[n - 3], s[n - 2], s[n - 1]) == crc32(
                s.take(n - 4),
            )
        }),
{
    let n = s.len() as int;
    let c = s.skip(n - 4);
    lemma_value_unfold(c);
    assert(c[0] == s[n - 4] && c[1] == s[n - 3] && c[2] == s[n - 2] && c[3] == s[n - 1]);
}

/// What an intact response is, byte by byte, and where its fields stand.
pub proof fn lemma_response_bytes(s: Seq<u8>)
    ensures
        is_response(s) <==> {
            &&& s.len() == 16
            &&& s[0] == 0x54 && s[1] == 0x76 && s[2] == 0xc0 && s[3] == 0xda
            &&& word(s[12], s[13], s[14], s[15]) == crc32(s.take(12))
        },
        is_response(s) ==> {
            let r = response_fields(s);
            &&& r.chip == s[4]
            &&& r.reg == s[5]
            &&& r.lcmd == s[6] + 0x100 * s[7]
            &&& r.data == word(s[8], s[9], s[10], s[11])
        },
{
    if s.len() == 16 {
        lemma_value_unfold(s.take(4));
        lemma_value_unfold(s.subrange(6, 8));
        lemma_value_unfold(s.subrange(8, 12));
        lemma_value_unfold(s.skip(12));
        let m = s.take(4);
        assert(m[0] == s[0] && m[1] == s[1] && m[2] == s[2] && m[3] == s[3]);
        assert(s.subrange(6, 8)[0] == s[6] && s.subrange(6, 8)[1] == s[7]);
        let d = s.subrange(8, 12);
        assert(d[0] == s[8] && d[1] == s[9] && d[2] == s[10] && d[3] == s[11]);
        let c = s.skip(12);
        assert(c[0] == s[12] && c[1] == s[13] && c[2] == s[14] && c[3] == s[15]);
    }
}

/// What an intact hit is, byte by byte: the header stands in bytes 8 to 87 and
/// the nonce is its last word.
pub proof fn lemma_hit_bytes(s: Seq<u8>)
    ensures
        is_hit(s) <==> {
            &&& s.len() == 92
            &&& s[0] == 0x78 && s[1] == 0x56 && s[2] == 0x34 && s[3] == 0x12
            &&& word(s[88], s[89], s[90], s[91]) == crc32(s.take(88))
        },
        is_hit(s) ==> {
            let h = hit_fields(s);
            &&& h.chip == s[4]
            &&& h.nonce == word(s[84], s[85], s[86], s[87])
            &&& h.header.len() == 80
            &&& forall|i: int| 0 <= i < 80 ==> #[trigger] h.header[i] == s[8 + i]
        },
{
    if s.len() == 92 {
        lemma_value_unfold(s.take(4));
        lemma_value_unfold(s.subrange(84, 88));
        lemma_value_unfold(s.skip(88));
        let m = s.take(4);
        assert(m[0] == s[0] && m[1] == s[1] && m[2] == s[2] && m[3] == s[3]);
        let d = s.subrange(84, 88);
        assert(d[0] == s[84] && d[1] == s[85] && d[2] == s[86] && d[3] == s[87]);
        let c = s.skip(88);
        assert(c[0] == s[88] && c[1] == s[89] && c[2] == s[90] && c[3] == s[91]);
    }
}

/// A job frame, byte by byte, under the slot's command word `slot * 0x400 +
/// 0x2a` in sixteen bits.
pub proof fn lemma_job_bytes(
    chip: u8,
    slot: u8,
    job_id: u32,
    prevhash: Seq<u8>,
    merkle: Seq<u8>,
    ntime: u32,
    nbits: u32,
    nonce_start: u32,
)
    requires
        prevhash.len() == 32,
        merkle.len() == 32,
    ensures
        ({
            let f = sealed(
                job_body(chip, slot, job_id, prevhash, merkle, ntime, nbits, nonce_start),
            );
            &&& f.len() == 92
            &&& f[0] == 0x78 && f[1] == 0x56 && f[2] == 0x34 && f[3] == 0x12
            &&& f[4] == chip
            &&& f[5] == 0x84
            &&& f[6] + 0x100 * f[7] == (slot * 0x400 + 0x2a) % 0x1_0000
            &&& word(f[8], f[9], f[10], f[11]) == job_id
            &&& forall|i: int| 0 <= i < 32 ==> #[trigger] f[12 + i] == prevhash[i]
            &&& forall|i: int| 0 <= i < 32 ==> #[trigger] f[44 + i] == merkle[i]
            &&& word(f[76], f[77], f[78], f[79]) == ntime
            &&& word(f[80], f[81], f[82], f[83]) == nbits
            &&& word(f[84], f[85], f[86], f[87]) == nonce_start
            &&& word(f[88], f[89], f[90], f[91]) == crc32(f.take(88))
        }),
{
    let f = sealed(job_body(chip, slot, job_id, prevhash, merkle, ntime, nbits, nonce_start));
    lemma_job_round_trip(chip, slot, job_id, prevhash, merkle, ntime, nbits, nonce_start);
    lemma_long_frame_words(f, prevhash, merkle);
    lemma_slot_word(slot);
}

proof fn lemma_slot_word(slot: u8)
    ensures
        (slot * 0x400 + 0x2a) % 0x1_0000 == (slot % 64) * 0x400 + 0x2a,
{
    assert(slot == 64 * (slot / 64) + slot % 64);
}

proof fn lemma_long_frame_words(f: Seq<u8>, first: Seq<u8>, second: Seq<u8>)
    requires
        f.len() == 92,
        has_command_magic(f),
        has_good_crc(f),
        f.subrange(12, 44) == first,
        f.subrange(44, 76) == second,
    ensures
        f[0] == 0x78 && f[1] == 0x56 && f[2] == 0x34 && f[3] == 0x12,
        le_value(f.subrange(6, 8)) == f[6] + 0x100 * f[7],
        le_value(f.subrange(8, 12)) == word(f[8], f[9], f[10], f[11]),
        forall|i: int| 0 <= i < 32 ==> #[trigger] f[12 + i] == first[i],
        forall|i: int| 0 <= i < 32 ==> #[trigger] f[44 + i] == second[i],
        le_value(f.subrange(76, 80)) == word(f[76], f[77], f[78], f[79]),
        le_value(f.subrange(80, 84)) == word(f[80], f[81], f[82], f[83]),
        le_value(f.subrange(84, 88)) == word(f[84], f[85], f[86], f[87]),
        word(f[88], f[89], f[90], f[91]) == crc32(f.take(88)),
{
    lemma_word_at(f, 0);
    lemma_word_at(f, 8);
    lemma_word_at(f, 76);
    lemma_word_at(f, 80);
    lemma_word_at(f, 84);
    lemma_word_at(f, 88);
    lemma_value_unfold(f.subrange(6, 8));
    assert(f.subrange(6, 8)[0] == f[6] && f.subrange(6, 8)[1] == f[7]);
    assert(f.take(4) =~= f.subrange(0, 4));
    assert(f.skip(88) =~= f.subrange(88, 92));
    assert forall|i: int| 0 <= i < 32 implies #[trigger] f[12 + i] == first[i] by {
        assert(f.subrange(12, 44)[i] == f[12 + i]);
    }
    assert forall|i: int| 0 <= i < 32 implies #[trigger] f[44 + i] == second[i] by {
        assert(f.subrange(44, 76)[i] == f[44 + i]);
    }
}

proof fn lemma_word_at(f: Seq<u8>, at: int)
    requires
        0 <= at,
        at + 4 <= f.len(),
    ensures
        le_value(f.subrange(at, at + 4)) == word(
            f[at],
            f[at + 1],
            f[at + 2],
            f[at + 3],
        ),
{
    let w = f.subrange(at, at + 4);
    lemma_value_unfold(w);
    assert(w[0] == f[at] && w[1] == f[at + 1] && w[2] == f[at + 2] && w[3] == f[at + 3]);
}

/// A dispatch puts one job frame per chip on the wire, in the order of the
/// chips. The frame of chip `k` takes bytes `92 * k` to `92 * k + 92`, is
/// addressed to it, and carries the slot, the job id, the task's previous hash,
/// time and compact target, the merkle root, and nonce start 0.
pub proof fn lemma_dispatch_bytes(
    chips: Seq<u8>,
    slot: u8,
    job_id: u32,
    task: HashTask,
    merkle: Seq<u8>,
    k: int,
)
    requires
        merkle.len() == 32,
        0 <= k < chips.len(),
    ensures
        job_frames(chips, slot, job_id, task, merkle).len() == 92 * chips.len(),
        job_frames(chips, slot, job_id, task, merkle).subrange(92 * k, 92 * k + 92) == sealed(
            job_body(
                chips[k],
                slot,
                job_id,
                task.prev_blockhash@,
                merkle,
                task.ntime,
                task.bits,
                0,
            ),
        ),
    decreases chips.len(),
{
    let all = job_frames(chips, slot, job_id, task, merkle);
    let head = job_frames(chips.drop_last(), slot, job_id, task, merkle);
    lemma_dispatch_len(chips, slot, job_id, task, merkle);
    lemma_dispatch_len(chips.drop_last(), slot, job_id, task, merkle);
    if k < chips.len() - 1 {
        lemma_dispatch_bytes(chips.drop_last(), slot, job_id, task, merkle, k);
        assert(all.subrange(92 * k, 92 * k + 92) =~= head.subrange(92 * k, 92 * k + 92));
    } else {
        assert(all.subrange(92 * k, 92 * k + 92) =~= job_frame(
            chips.last(),
            slot,
            job_id,
            task,
            merkle,
        ));
    }
}

proof fn lemma_dispatch_len(
    chips: Seq<u8>,
    slot: u8,
    job_id: u32,
    task: HashTask,
    merkle: Seq<u8>,
)
    requires
        merkle.len() == 32,
    ensures
        job_frames(chips, slot, job_id, task, merkle).len() == 92 * chips.len(),
    decreases chips.len(),
{
    if chips.len() > 0 {
        lemma_dispatch_len(chips.drop_last(), slot, job_id, task, merkle);
        lemma_job_bytes(
            chips.last(),
            slot,
            job_id,
            task.prev_blockhash@,
            merkle,
            task.ntime,
            task.bits,
            0,
        );
    }
}

/// The response magic `54 76 c0 da` stands at `s[i..i + 4]`.
pub open spec fn answer_begins_at(s: Seq<u8>, i: int) -> bool {
    &&& 0 <= i && i + 4 <= s.len()
    &&& s[i] == 0x54 && s[i + 1] == 0x76 && s[i + 2] == 0xc0 && s[i + 3] == 0xda
}

proof fn lemma_magic_bytes(s: Seq<u8>, i: int)
    ensures
        magic_at(s, i) <==> answer_begins_at(s, i),
{
    if 0 <= i && i + 4 <= s.len() {
        let m = s.subrange(i, i + 4);
        lemma_value_unfold(m);
        assert(m[0] == s[i] && m[1] == s[i + 1] && m[2] == s[i + 2] && m[3] == s[i + 3]);
    }
}

/// What the codec makes of a buffer whose first response magic stands at
/// `pos`: it waits while fewer than 16 bytes follow, takes an intact frame out
/// with everything before it, and moves one byte past a damaged one.
pub proof fn lemma_codec_at_first_magic(
    s: Seq<u8>,
    pos: int,
    out: Option<Response>,
    rest: Seq<u8>,
)
    requires
        decoded(s, out, rest),
        s.len() >= 16,
        answer_begins_at(s, pos),
        forall|i: int| 0 <= i < pos ==> !answer_begins_at(s, i),
    ensures
        s.len() < pos + 16 ==> out is None && rest == s,
        s.len() >= pos + 16 && is_response(s.subrange(pos, pos + 16)) ==> out == Some(
            response_fields(s.subrange(pos, pos + 16)),
        ) && rest == s.skip(pos + 16),
        s.len() >= pos + 16 && !is_response(s.subrange(pos, pos + 16)) ==> out is None && rest
            == s.skip(pos + 1),
{
    lemma_magic_bytes(s, pos);
    assert forall|i: int| 0 <= i < pos implies !#[trigger] magic_at(s, i) by {
        lemma_magic_bytes(s, i);
    }
    assert(first_magic_at(s, pos));
    let p = choose|p: int| first_magic_at(s, p);
    assert(first_magic_at(s, p));
    if p < pos {
        assert(magic_at(s, p));
    }
    if pos < p {
        assert(magic_at(s, pos));
    }
}

/// What the codec makes of a buffer without a response magic: nothing comes
/// out; fewer than 16 bytes all wait, of more the last three do.
pub proof fn lemma_codec_without_magic(s: Seq<u8>, out: Option<Response>, rest: Seq<u8>)
    requires
        decoded(s, out, rest),
    ensures
        s.len() < 16 ==> out is None && rest == s,
        s.len() >= 16 && (forall|i: int| !answer_begins_at(s, i)) ==> out is None && rest == s.skip(
            s.len() - 3,
        ),
{
    if s.len() >= 16 && (forall|i: int| !answer_begins_at(s, i)) {
        assert forall|p: int| !first_magic_at(s, p) by {
            lemma_magic_bytes(s, p);
        }
    }
}

/// Nothing comes out of these bytes, and they all stay.
pub open spec fn held_back(s: Seq<u8>) -> Drained {
    Drained { responses: Seq::empty(), hits: Seq::empty(), rest: s }
}

/// The command magic `78 56 34 12` stands at the head of `s`.
pub open spec fn hit_begins(s: Seq<u8>) -> bool {
    s.len() >= 4 && s[0] == 0x78 && s[1] == 0x56 && s[2] == 0x34 && s[3] == 0x12
}

/// Which frame begins here: a response begins with `54 76 c0 da`, everything
/// that is sent, and a hit, with `78 56 34 12`.
pub proof fn lemma_head_magics(s: Seq<u8>)
    requires
        s.len() >= 4,
    ensures
        has_response_magic(s) <==> answer_begins_at(s, 0),
        has_command_magic(s) <==> hit_begins(s),
{
    let m = s.take(4);
    lemma_value_unfold(m);
    assert(m[0] == s[0] && m[1] == s[1] && m[2] == s[2] && m[3] == s[3]);
}

/// What draining does at the head of the bus, whatever follows: an intact
/// response or hit comes out and the drain goes on behind it; the beginning of
/// one that is not complete waits, as do fewer than four bytes; anything else,
/// a damaged frame included, costs one byte.
pub proof fn lemma_drain_at_the_head(s: Seq<u8>)
    ensures
        s.len() < 4 ==> drain(s) == held_back(s),
        answer_begins_at(s, 0) && s.len() < 16 ==> drain(s) == held_back(s),
        hit_begins(s) && s.len() < 92 ==> drain(s) == held_back(s),
        s.len() >= 16 && is_response(s.take(16)) ==> drain(s) == (Drained {
            responses: seq![response_fields(s.take(16))] + drain(s.skip(16)).responses,
            hits: drain(s.skip(16)).hits,
            rest: drain(s.skip(16)).rest,
        }),
        s.len() >= 92 && is_hit(s.take(92)) ==> drain(s) == (Drained {
            responses: drain(s.skip(92)).responses,
            hits: seq![hit_fields(s.take(92))] + drain(s.skip(92)).hits,
            rest: drain(s.skip(92)).rest,
        }),
        s.len() >= 4 && !answer_begins_at(s, 0) && !hit_begins(s) ==> drain(s) == drain(s.skip(1)),
        answer_begins_at(s, 0) && s.len() >= 16 && !is_response(s.take(16)) ==> drain(s) == drain(
            s.skip(1),
        ),
        hit_begins(s) && s.len() >= 92 && !is_hit(s.take(92)) ==> drain(s) == drain(s.skip(1)),
{
    if s.len() >= 4 {
        lemma_head_magics(s);
        if s.len() >= 16 {
            lemma_response_bytes(s.take(16));
        }
        if s.len() >= 92 {
            lemma_hit_bytes(s.take(92));
        }
    }
}

} // verus!
