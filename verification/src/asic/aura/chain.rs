//! Aura chain bring-up: discovery, version bounds, DVFS initial setup and
//! per-chip/chain register init.
//!
//! Discovery is multi-pass and probabilistic: a broadcast telemetry sweep
//! (`reg = 0x02`) is answered by only a few chips per pass, a different
//! subset each pass. Unique chip IDs are accumulated across passes; each pass
//! drains responses for [`ChainConfig::pass_drain`] and passes are paced
//! [`ChainConfig::pass_pace`] apart. After discovery each chip gets a private
//! nonce window via [`version_bounds`], then the chain-wide DVFS initial
//! setup and the PLL/duty/hashconfig init run (broadcast).
//!
//! A `writer` is a buffer of bytes to be sent to the chain.

use super::protocol::{
    all_on_wire, lemma_all_on_wire_concat, lemma_all_on_wire_push, lemma_on_wire_len, on_wire,
    pll_freq_word, Command, Register, PLL_CONFIG_INIT,
};
use crate::buffer::{buffered, has_room};
use bytes::BytesMut;
use vstd::prelude::*;

pub use super::discovery::discover_chips;
pub use super::framing::drain_frames;

verus! {

/// Expected number of chips on the Apollo III chain (verified ground truth).
pub const EXPECTED_CHIP_COUNT: usize = 21;

/// Low-level command word used for telemetry/discovery reads.
pub const TELEMETRY_LCMD: u16 = 0x1200;

/// Low-level command word used for ordinary register writes.
pub const REG_LCMD: u16 = 0x1000;

/// Low-level command word for the version-bound write.
pub const VERSION_BOUND_LCMD: u16 = 0x1000;

/// Value written to VERSION_SHIFT (0x11).
pub const VERSION_SHIFT_VALUE: u32 = 13;

/// Nonce-window width per chip (`0x0c30`); 21 chips tile the lower 16 bits.
pub const VERSION_WINDOW: u32 = 0x0c30;

/// PLL N divider at the start of the frequency ramp.
pub const PLL_RAMP_START: u32 = 80;

/// PLL N divider at full rate (`fhash = 5 * 491 / 4 = 613.75 MHz`).
pub const PLL_RAMP_END: u32 = 491;

/// PLL N divider step between ramp stages (~25 MHz per step at 5N/4).
pub const PLL_RAMP_STEP: u32 = 20;

/// Duty-cycle register word while the hash clock is at/below 600 MHz.
pub const DUTY_LE_600_MHZ: u32 = 0x8080_0000;

/// Duty-cycle register word once the hash clock exceeds 600 MHz.
pub const DUTY_GT_600_MHZ: u32 = 0x8088_0000;

/// HASHCONFIG (0x14) value; rewritten after every duty-cycle change.
pub const HASHCONFIG_VALUE: u32 = 0x0200_0200;

/// Chain-level bring-up parameters (locked defaults; tests shrink them).
/// Durations are in nanoseconds.
#[derive(Debug, Clone, Copy, PartialEq, Eq, Structural)]
pub struct ChainConfig {
    /// Number of chips expected on the chain (stop discovery early once this
    /// many unique chips have ACKed).
    pub expected_chips: usize,
    /// How long to drain responses after each broadcast sweep.
    pub pass_drain: u64,
    /// Pacing between sweep passes (next pass starts this long after the
    /// previous one).
    pub pass_pace: u64,
    /// Maximum number of sweep passes before giving up.
    pub max_passes: usize,
}

impl Default for ChainConfig {
    fn default() -> (r: Self)
        ensures
            r == (ChainConfig {
                expected_chips: EXPECTED_CHIP_COUNT,
                pass_drain: 3_500_000_000,
                pass_pace: 10_800_000_000,
                max_passes: 24,
            }),
    {
        ChainConfig {
            expected_chips: EXPECTED_CHIP_COUNT,
            pass_drain: 3_500_000_000,
            pass_pace: 10_800_000_000,
            max_passes: 24,
        }
    }
}

/// The command that writes `data` to `register` of one chip or of all chips.
pub open spec fn write_command(
    broadcast: bool,
    chip_address: u8,
    register: Register,
    lcmd: u16,
    data: u32,
) -> Command {
    Command::WriteRegister { broadcast, chip_address, register, lcmd, data }
}

/// The command that reads `register` of one chip.
pub open spec fn read_command(chip_address: u8, register: Register, lcmd: u16) -> Command {
    Command::ReadRegister { broadcast: false, chip_address, register, lcmd, data: 0 }
}

/// Write a register command to the chain (20-byte preamble + 16-byte frame).
pub fn write_reg(
    writer: &mut BytesMut,
    broadcast: bool,
    chip_address: u8,
    register: Register,
    lcmd: u16,
    data: u32,
)
    requires
        has_room(*old(writer), 36),
    ensures
        buffered(*final(writer)) == buffered(*old(writer)) + on_wire(
            write_command(broadcast, chip_address, register, lcmd, data),
        ),
{
    let command = Command::WriteRegister { broadcast, chip_address, register, lcmd, data };
    command.encode_with_preamble(writer);
}

/// Issue a register read command (response arrives asynchronously).
pub fn read_reg(writer: &mut BytesMut, chip_address: u8, register: Register, lcmd: u16)
    requires
        has_room(*old(writer), 36),
    ensures
        buffered(*final(writer)) == buffered(*old(writer)) + on_wire(
            read_command(chip_address, register, lcmd),
        ),
{
    let command = Command::ReadRegister { broadcast: false, chip_address, register, lcmd, data: 0 };
    command.encode_with_preamble(writer);
}

/// Poll `chip` for one queued hit (fire-and-forget).
///
/// A queued hit makes the chip emit a 92-byte hit frame; an empty hit FIFO
/// yields no response at all, which is normal.
pub fn hit_poll(writer: &mut BytesMut, chip_address: u8)
    requires
        has_room(*old(writer), 36),
    ensures
        buffered(*final(writer)) == buffered(*old(writer)) + on_wire(
            Command::HitPoll { chip_address },
        ),
{
    let command = Command::HitPoll { chip_address };
    command.encode_with_preamble(writer);
}

/// First nonce of the window of chip `index`.
pub open spec fn window_lower(index: int) -> int {
    index * VERSION_WINDOW
}

/// Last nonce of the window of chip `index`.
pub open spec fn window_upper(index: int) -> int {
    window_lower(index) + VERSION_WINDOW - 1
}

/// The window of chip `index` packed into a word: lower bound in the low half,
/// upper bound in the high half.
pub open spec fn window_word(index: int) -> u32 {
    (window_lower(index) as u32) | ((window_upper(index) as u32) << 16)
}

/// Packed version-bound word for chip `index`.
///
/// The chip's private nonce window is `[lower, upper]` with
/// `lower = index * 0x0c30`, `upper = lower + 0x0c2f`, packed as
/// `lower | (upper << 16)`. Index is the chip's position in the sorted
/// discovered list, so 21 chips tile `0x0000..=0xffef`.
pub fn version_bounds(index: usize) -> (word: u32)
    requires
        window_upper(index as int % 0x1_0000_0000) < u32::MAX,
    ensures
        word == window_word(index as int % 0x1_0000_0000),
        index < EXPECTED_CHIP_COUNT ==> word == window_lower(index as int) + 0x1_0000
            * window_upper(index as int),
{
    let position: u32 = (index as u64 % 0x1_0000_0000) as u32;
    let lower: u32 = position * VERSION_WINDOW;
    let upper: u32 = lower + VERSION_WINDOW - 1;
    proof {
        if index < EXPECTED_CHIP_COUNT {
            assert(lower | (upper << 16) == lower + 0x1_0000 * upper) by (bit_vector)
                requires
                    lower < 0x1_0000,
                    upper < 0x1_0000,
            ;
        }
    }
    lower | (upper << 16)
}

/// The windows of a full chain tile `0x0000..=0xffef`: every nonce in that
/// range belongs to the window of exactly one of the 21 chips, and no window
/// reaches beyond it. All windows are equally wide, a multiple of 4.
pub proof fn lemma_windows_tile(nonce: int)
    ensures
        forall|index: int|
            (#[trigger] window_upper(index)) - window_lower(index) + 1 == VERSION_WINDOW,
        VERSION_WINDOW % 4 == 0,
        0 <= nonce <= 0xffef <==> exists|index: int|
            0 <= index < EXPECTED_CHIP_COUNT && #[trigger] window_lower(index) <= nonce
                <= window_upper(index),
        forall|a: int, b: int|
            0 <= a < EXPECTED_CHIP_COUNT && 0 <= b < EXPECTED_CHIP_COUNT && #[trigger] window_lower(
                a,
            ) <= nonce <= window_upper(a) && #[trigger] window_lower(b) <= nonce <= window_upper(b)
                ==> a == b,
{
    if 0 <= nonce <= 0xffef {
        let index = nonce / 0x0c30;
        assert(0 <= index < EXPECTED_CHIP_COUNT && window_lower(index) <= nonce <= window_upper(
            index,
        ));
    }
}

/// The word written to each chip of a full chain carries its window: the low
/// half is the lower bound and the high half is the upper bound.
pub proof fn lemma_window_word_halves(index: int)
    requires
        0 <= index < EXPECTED_CHIP_COUNT,
    ensures
        window_word(index) % 0x1_0000 == window_lower(index),
        window_word(index) / 0x1_0000 == window_upper(index),
{
    let lower = window_lower(index) as u32;
    let upper = window_upper(index) as u32;
    assert((lower | (upper << 16)) == lower + 0x1_0000 * upper) by (bit_vector)
        requires
            lower < 0x1_0000,
            upper < 0x1_0000,
    ;
}

/// The version-bound and version-shift writes for `chips`, chip by chip.
pub open spec fn version_commands(chips: Seq<u8>) -> Seq<Command> {
    Seq::new(
        2 * chips.len(),
        |i: int|
            if i % 2 == 0 {
                write_command(
                    false,
                    chips[i / 2],
                    Register::VersionBound,
                    VERSION_BOUND_LCMD,
                    window_word(i / 2),
                )
            } else {
                write_command(
                    false,
                    chips[i / 2],
                    Register::VersionShift,
                    VERSION_BOUND_LCMD,
                    VERSION_SHIFT_VALUE,
                )
            },
    )
}

/// Write per-chip version bounds and version shift for every discovered chip.
pub fn configure_version_bounds(writer: &mut BytesMut, chips: &[u8])
    requires
        chips@.len() * VERSION_WINDOW <= u32::MAX,
        has_room(*old(writer), 72 * chips@.len()),
    ensures
        buffered(*final(writer)) == buffered(*old(writer)) + all_on_wire(version_commands(chips@)),
{
    let ghost start = buffered(*writer);
    let mut index: usize = 0;
    assert(version_commands(chips@).take(0) =~= Seq::<Command>::empty());
    assert(start + Seq::<u8>::empty() =~= start);
    while index < chips.len()
        invariant
            index <= chips@.len(),
            chips@.len() * VERSION_WINDOW <= u32::MAX,
            2 * (start.len() + 72 * chips@.len()) <= isize::MAX,
            buffered(*writer) == start + all_on_wire(version_commands(chips@).take(2 * index)),
        decreases chips@.len() - index,
    {
        let ghost done = version_commands(chips@).take(2 * index);
        let ghost bound = version_commands(chips@)[2 * index];
        let ghost shift = version_commands(chips@)[2 * index + 1];
        proof {
            lemma_on_wire_len(done);
            lemma_on_wire_len(done.push(bound));
            lemma_all_on_wire_push(done, bound);
            lemma_all_on_wire_push(done.push(bound), shift);
            assert(version_commands(chips@).take(2 * (index + 1)) =~= done.push(bound).push(shift));
            assert(index as int % 0x1_0000_0000 == index);
        }
        let chip: u8 = chips[index];
        let packed: u32 = version_bounds(index);
        write_reg(writer, false, chip, Register::VersionBound, VERSION_BOUND_LCMD, packed);
        write_reg(
            writer,
            false,
            chip,
            Register::VersionShift,
            VERSION_BOUND_LCMD,
            VERSION_SHIFT_VALUE,
        );
        assert(start + all_on_wire(done) + on_wire(bound) + on_wire(shift) =~= start + (all_on_wire(
            done,
        ) + on_wire(bound) + on_wire(shift)));
        index = index + 1;
    }
    assert(version_commands(chips@).take(2 * index) =~= version_commands(chips@));
}

/// The one-time DVFS InitialSetup sequence: 18 writes to register 0x81, as
/// low-level command word and data.
///
/// Exact order and values are locked ground truth. For these writes the
/// register address is the low byte of the low-level command word (all `0x00`
/// here); the frame register byte is always 0x81.
pub const DVFS_INIT_WRITES: [(u16, u32); 18] = [
    (0x1800, 11_245_000),
    (0x1900, 0x0000_000a),
    (0x2500, 0x00f0_ff00),
    (0x1400, 0x0200_0200),
    (0x6800, 0x8080_0000),
    (0x1400, 0x0200_0200),
    (0x1c00, 0x0100_0000),
    (0x1d00, 0x0d00_0000),
    (0x2500, 0x00f0_ff00),
    (0x1400, 0x0200_0200),
    (0x6800, 0x8080_0000),
    (0x1400, 0x0200_0200),
    (0x1900, 0x0000_0005),
    (0x2300, 0x4408_0000),
    (0x6800, 0x8080_0000),
    (0x1900, 0x0000_000a),
    (0x2400, 0x0000_0000),
    (0x2300, 0x4408_0000),
];

/// The DVFS InitialSetup sequence as broadcast commands.
pub open spec fn dvfs_init_commands() -> Seq<Command> {
    Seq::new(
        18,
        |i: int|
            write_command(
                true,
                0,
                Register::Dvfs,
                DVFS_INIT_WRITES@[i].0,
                DVFS_INIT_WRITES@[i].1,
            ),
    )
}

/// Send the one-time DVFS InitialSetup sequence (broadcast).
pub fn dvfs_initial_setup(writer: &mut BytesMut)
    requires
        has_room(*old(writer), 648),
    ensures
        buffered(*final(writer)) == buffered(*old(writer)) + all_on_wire(dvfs_init_commands()),
{
    let ghost start = buffered(*writer);
    let writes: [(u16, u32); 18] = DVFS_INIT_WRITES;
    let mut i: usize = 0;
    assert(dvfs_init_commands().take(0) =~= Seq::<Command>::empty());
    assert(start + Seq::<u8>::empty() =~= start);
    while i < 18
        invariant
            i <= 18,
            writes == DVFS_INIT_WRITES,
            2 * (start.len() + 648) <= isize::MAX,
            buffered(*writer) == start + all_on_wire(dvfs_init_commands().take(i as int)),
        decreases 18 - i,
    {
        let ghost done = dvfs_init_commands().take(i as int);
        let ghost next = dvfs_init_commands()[i as int];
        proof {
            lemma_on_wire_len(done);
            lemma_all_on_wire_push(done, next);
            assert(dvfs_init_commands().take(i + 1) =~= done.push(next));
        }
        let (lcmd, data) = writes[i];
        write_reg(writer, true, 0x00, Register::Dvfs, lcmd, data);
        assert(start + all_on_wire(done) + on_wire(next) =~= start + (all_on_wire(done) + on_wire(
            next,
        )));
        i = i + 1;
    }
    assert(dvfs_init_commands().take(18) =~= dvfs_init_commands());
}

/// The duty-cycle word for a PLL N divider. The hash clock is `5 * N / 4`
/// MHz; the low duty holds up to and at 600 MHz.
pub open spec fn duty_for(pll_n: u32) -> u32 {
    if 5 * pll_n <= 4 * 600 {
        DUTY_LE_600_MHZ
    } else {
        DUTY_GT_600_MHZ
    }
}

/// Duty-cycle register word for a PLL N divider (0x8080 while the hash clock
/// is at/below 600 MHz, 0x8088 above).
pub fn duty_word(pll_n: u32) -> (word: u32)
    ensures
        word == duty_for(pll_n),
{
    if pll_n <= 480 {
        DUTY_LE_600_MHZ
    } else {
        DUTY_GT_600_MHZ
    }
}

/// The PLL_FREQ word for a PLL N divider.
pub open spec fn pll_word(pll_n: u32) -> u32 {
    ((pll_n % 0x1000) * 0x10_0000) as u32
}

/// Chain-wide init as broadcast commands.
pub open spec fn init_commands(pll_n: u32) -> Seq<Command> {
    seq![
        write_command(true, 0, Register::PllConfig, REG_LCMD, PLL_CONFIG_INIT),
        write_command(true, 0, Register::PllFreq, REG_LCMD, pll_word(pll_n)),
        write_command(true, 0, Register::DutyCycle, REG_LCMD, duty_for(pll_n)),
        write_command(true, 0, Register::HashConfig, REG_LCMD, HASHCONFIG_VALUE),
    ]
}

/// Chain-wide init: PLL_CONFIG -> PLL_FREQ -> DUTY_CYCLE -> HASHCONFIG.
///
/// `pll_n` is the initial PLL divider (the ramp start, 80). HASHCONFIG is
/// rewritten after the duty-cycle change, as required.
pub fn init_chain(writer: &mut BytesMut, pll_n: u32)
    requires
        has_room(*old(writer), 144),
    ensures
        buffered(*final(writer)) == buffered(*old(writer)) + all_on_wire(init_commands(pll_n)),
{
    let ghost cs = init_commands(pll_n);
    proof {
        lemma_on_wire_len(cs);
        lemma_all_on_wire_push(Seq::empty(), cs[0]);
        lemma_all_on_wire_push(seq![cs[0]], cs[1]);
        lemma_all_on_wire_push(seq![cs[0], cs[1]], cs[2]);
        lemma_all_on_wire_push(seq![cs[0], cs[1], cs[2]], cs[3]);
        assert(Seq::<Command>::empty().push(cs[0]) =~= seq![cs[0]]);
        assert(seq![cs[0]].push(cs[1]) =~= seq![cs[0], cs[1]]);
        assert(seq![cs[0], cs[1]].push(cs[2]) =~= seq![cs[0], cs[1], cs[2]]);
        assert(seq![cs[0], cs[1], cs[2]].push(cs[3]) =~= cs);
    }
    write_reg(writer, true, 0x00, Register::PllConfig, REG_LCMD, PLL_CONFIG_INIT);
    write_reg(writer, true, 0x00, Register::PllFreq, REG_LCMD, pll_freq_word(pll_n));
    write_reg(writer, true, 0x00, Register::DutyCycle, REG_LCMD, duty_word(pll_n));
    write_reg(writer, true, 0x00, Register::HashConfig, REG_LCMD, HASHCONFIG_VALUE);
    assert(buffered(*writer) =~= buffered(*old(writer)) + all_on_wire(cs));
}

/// `command` writes the DUTY_CYCLE register.
pub open spec fn sets_duty(command: Command) -> bool {
    command matches Command::WriteRegister { register, .. } && register == Register::DutyCycle
}

/// Every DUTY_CYCLE write in `commands` is followed at once by a broadcast
/// HASHCONFIG write.
pub open spec fn rewrites_hashconfig(commands: Seq<Command>) -> bool {
    forall|i: int|
        0 <= i < commands.len() && sets_duty(#[trigger] commands[i]) ==> i + 1 < commands.len()
            && commands[i + 1] == write_command(
            true,
            0,
            Register::HashConfig,
            REG_LCMD,
            HASHCONFIG_VALUE,
        )
}

/// Chain init rewrites HASHCONFIG after the duty-cycle change.
pub proof fn lemma_init_rewrites_hashconfig(pll_n: u32)
    ensures
        rewrites_hashconfig(init_commands(pll_n)),
{
}

/// Bring-up failure.
#[derive(Debug, Clone, Copy, PartialEq, Eq, Structural)]
pub enum BringUpError {
    /// Discovery ended with no chip found.
    NoChips,
}

/// Everything that bring-up writes once `chips` are known: their version
/// bounds, the DVFS initial setup, and chain init at the ramp start.
pub open spec fn bring_up_commands(chips: Seq<u8>) -> Seq<Command> {
    version_commands(chips) + dvfs_init_commands() + init_commands(PLL_RAMP_START)
}

/// Chain bring-up from the discovered `chips` on: version bounds, DVFS
/// initial setup, init.
///
/// Runs at the low end of the ramp (`PLL_RAMP_START`); the frequency ramp
/// itself is driven later by the thread once pool work is live. With no chips
/// nothing is written.
pub fn bring_up_chain(writer: &mut BytesMut, chips: &[u8]) -> (r: Result<(), BringUpError>)
    requires
        chips@.len() * VERSION_WINDOW <= u32::MAX,
        has_room(*old(writer), 72 * chips@.len() + 792),
    ensures
        chips@.len() == 0 ==> r == Err::<(), _>(BringUpError::NoChips) && buffered(*final(writer))
            == buffered(*old(writer)),
        chips@.len() > 0 ==> r is Ok && buffered(*final(writer)) == buffered(*old(writer))
            + all_on_wire(bring_up_commands(chips@)),
{
    if chips.len() == 0 {
        return Err(BringUpError::NoChips);
    }
    proof {
        lemma_on_wire_len(version_commands(chips@));
        lemma_on_wire_len(dvfs_init_commands());
        lemma_all_on_wire_concat(version_commands(chips@), dvfs_init_commands());
        lemma_all_on_wire_concat(
            version_commands(chips@) + dvfs_init_commands(),
            init_commands(PLL_RAMP_START),
        );
    }
    configure_version_bounds(writer, chips);
    dvfs_initial_setup(writer);
    init_chain(writer, PLL_RAMP_START);
    assert(buffered(*writer) =~= buffered(*old(writer)) + all_on_wire(bring_up_commands(chips@)));
    Ok(())
}

} // verus!
