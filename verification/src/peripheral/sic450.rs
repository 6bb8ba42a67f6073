//! SIC450 PSU telemetry driver.
//!
//! Apollo III power supply: a dual-rail Infineon SIC450 on i2c-3. This driver
//! reads board temperature and per-rail telemetry; it never writes voltage
//! (voltage is set via PWM duty, see [`pwm_sysfs`](super::pwm_sysfs)).
//!
//! - Telemetry is read with a combined `I2C_RDWR` transaction (write opcode
//!   then read 2 bytes, repeated START), **PEC off**.
//! - `READ_VOUT` (0x8B) and `READ_IOUT` (0x8C) are confirmed live in the
//!   vendor log; `READ_TEMPERATURE_1` (0x8D) is assumed per PMBus convention.
//! - Board temperature is the `LM75`-style read: register 0x00, 1 byte.
//!
//! Any individual register read that NAKs yields `None` for that value instead
//! of failing the whole sample, matching the vendor monitor's behavior.

use crate::hw_trait::HwError;
use vstd::prelude::*;

verus! {

/// Default I2C address used for the SIC450/LM75 on Apollo III (i2c-3).
pub const DEFAULT_ADDRESS: u8 = 0x49;

/// Number of SIC450 rails.
pub const NUM_RAILS: usize = 2;

/// PMBus `PAGE`: selects the rail that the commands after it speak to.
pub const PMBUS_PAGE: u8 = 0x00;

/// PMBus `READ_VOUT`.
pub const PMBUS_READ_VOUT: u8 = 0x8B;

/// PMBus `READ_IOUT`.
pub const PMBUS_READ_IOUT: u8 = 0x8C;

/// PMBus `READ_TEMPERATURE_1`.
pub const PMBUS_READ_TEMPERATURE_1: u8 = 0x8D;

/// Driver error.
#[derive(Debug)]
pub enum Error<E> {
    /// I2C bus error.
    I2c(E),
}

/// A PMBus LINEAR11 value: `mantissa * 2^exponent`.
#[derive(Debug, Clone, Copy, PartialEq, Eq, Structural)]
pub struct Linear11 {
    /// Mantissa, 11 bits with sign.
    pub mantissa: i16,
    /// Exponent, 5 bits with sign.
    pub exponent: i8,
}

/// Telemetry for one PSU rail. `None` means the register read was not served
/// (NAK) or could not be decoded.
#[derive(Debug, Clone, Copy, PartialEq, Eq, Structural)]
pub struct RailTelemetry {
    /// Output voltage in volts (`READ_VOUT`, LINEAR11).
    pub vout_v: Option<Linear11>,
    /// Output current in amperes (`READ_IOUT`, LINEAR11).
    pub iout_a: Option<Linear11>,
    /// Temperature in degrees Celsius (`READ_TEMPERATURE_1`, LINEAR11).
    pub temp_c: Option<Linear11>,
}

impl Default for RailTelemetry {
    fn default() -> (r: Self)
        ensures
            r == (RailTelemetry { vout_v: None, iout_a: None, temp_c: None }),
    {
        RailTelemetry { vout_v: None, iout_a: None, temp_c: None }
    }
}

/// A full SIC450 telemetry sample.
#[derive(Debug, Clone, Copy, PartialEq, Eq)]
pub struct Sic450Telemetry {
    /// Per-rail telemetry, indexed by PMBus page.
    pub rails: [RailTelemetry; NUM_RAILS],
}

impl Default for Sic450Telemetry {
    fn default() -> (r: Self)
        ensures
            forall|rail: int|
                0 <= rail < NUM_RAILS ==> #[trigger] r.rails@[rail] == (RailTelemetry {
                    vout_v: None,
                    iout_a: None,
                    temp_c: None,
                }),
    {
        Sic450Telemetry { rails: [RailTelemetry::default(), RailTelemetry::default()] }
    }
}

/// One exchange on the bus.
#[derive(Debug, Clone, Copy, PartialEq, Eq, Structural)]
pub enum Exchange {
    /// Write the two bytes `command`, `value` to `address`.
    Write {
        /// Device address.
        address: u8,
        /// PMBus command.
        command: u8,
        /// Its argument.
        value: u8,
    },
    /// Write the byte `command` to `address`, then read `len` bytes with a
    /// repeated START.
    WriteRead {
        /// Device address.
        address: u8,
        /// Command or register.
        command: u8,
        /// Bytes to read.
        len: usize,
    },
}

/// SIC450 driver over the bus handle `i2c`.
pub struct Sic450<I> {
    i2c: I,
    address: u8,
}

/// The value of a LINEAR11 word: the low eleven bits are the mantissa and the
/// high five the exponent, both in two's complement.
pub open spec fn linear11_of(raw: u16) -> Linear11 {
    let m = raw % 0x800;
    let e = raw / 0x800;
    Linear11 {
        mantissa: if m < 0x400 {
            m as i16
        } else {
            (m - 0x800) as i16
        },
        exponent: if e < 0x10 {
            e as i8
        } else {
            (e - 0x20) as i8
        },
    }
}

/// The exchanges of one rail: page select, then voltage, current and
/// temperature.
pub open spec fn rail_exchanges(address: u8, rail: u8) -> Seq<Exchange> {
    seq![
        Exchange::Write { address, command: PMBUS_PAGE, value: rail },
        Exchange::WriteRead { address, command: PMBUS_READ_VOUT, len: 2 },
        Exchange::WriteRead { address, command: PMBUS_READ_IOUT, len: 2 },
        Exchange::WriteRead { address, command: PMBUS_READ_TEMPERATURE_1, len: 2 },
    ]
}

/// The value that a two-byte reply carries, low byte first; none where there
/// was no reply.
pub open spec fn reply_value(reply: Option<[u8; 2]>) -> Option<Linear11> {
    match reply {
        Some(bytes) => Some(linear11_of((bytes@[0] + 0x100 * bytes@[1]) as u16)),
        None => None,
    }
}

/// What the replies to a rail's three reads say.
pub open spec fn rail_of(
    vout: Option<[u8; 2]>,
    iout: Option<[u8; 2]>,
    temp: Option<[u8; 2]>,
) -> RailTelemetry {
    RailTelemetry {
        vout_v: reply_value(vout),
        iout_a: reply_value(iout),
        temp_c: reply_value(temp),
    }
}

impl<I> Sic450<I> {
    /// Address of the device.
    pub closed spec fn spec_address(self) -> u8 {
        self.address
    }

    /// The bus handle.
    pub closed spec fn spec_bus(self) -> I {
        self.i2c
    }

    /// Create a new driver instance at `address` (default
    /// [`DEFAULT_ADDRESS`]).
    pub fn new(i2c: I, address: u8) -> (r: Self)
        ensures
            r.spec_address() == address,
            r.spec_bus() == i2c,
    {
        Sic450 { i2c, address }
    }

    /// The bus handle, to perform exchanges with.
    pub fn bus(&mut self) -> (r: &mut I)
        ensures
            *r == old(self).spec_bus(),
            final(self).spec_bus() == *final(r),
            final(self).spec_address() == old(self).spec_address(),
    {
        &mut self.i2c
    }

    /// The exchange that reads the board temperature: register 0x00, one
    /// byte.
    ///
    /// The raw byte is the result as it is; its scaling is board-specific.
    pub fn read_board_temp(&self) -> (r: Exchange)
        ensures
            r == (Exchange::WriteRead { address: self.spec_address(), command: 0x00, len: 1 }),
    {
        Exchange::WriteRead { address: self.address, command: 0x00, len: 1 }
    }

    /// The exchanges that read per-rail telemetry, in order.
    ///
    /// Each rail is selected via the PMBus `PAGE` register, then
    /// `READ_VOUT`/`READ_IOUT`/`READ_TEMPERATURE_1` are read as LINEAR11
    /// words. Every exchange is made whether or not the ones before it
    /// succeeded.
    pub fn read_telemetry(&self) -> (r: Vec<Exchange>)
        ensures
            r@ == rail_exchanges(self.spec_address(), 0) + rail_exchanges(self.spec_address(), 1),
    {
        let address: u8 = self.address;
        let mut r: Vec<Exchange> = Vec::new();
        let mut rail: u8 = 0;
        while rail < 2
            invariant
                rail <= 2,
                r@ == (rail_exchanges(address, 0) + rail_exchanges(address, 1)).take(4 * rail),
            decreases 2 - rail,
        {
            r.push(Exchange::Write { address, command: PMBUS_PAGE, value: rail });
            r.push(Exchange::WriteRead { address, command: PMBUS_READ_VOUT, len: 2 });
            r.push(Exchange::WriteRead { address, command: PMBUS_READ_IOUT, len: 2 });
            r.push(Exchange::WriteRead { address, command: PMBUS_READ_TEMPERATURE_1, len: 2 });
            assert(r@ =~= (rail_exchanges(address, 0) + rail_exchanges(address, 1)).take(
                4 * (rail + 1),
            ));
            rail = rail + 1;
        }
        assert((rail_exchanges(address, 0) + rail_exchanges(address, 1)).take(8)
            =~= rail_exchanges(address, 0) + rail_exchanges(address, 1));
        r
    }
}

/// The board temperature out of the reply to [`Sic450::read_board_temp`]; a
/// bus error is passed on as the driver's own.
pub fn board_temp(reply: Result<u8, HwError>) -> (r: Result<u8, Error<HwError>>)
    ensures
        match reply {
            Ok(raw) => r == Ok::<u8, Error<HwError>>(raw),
            Err(e) => r == Err::<u8, Error<HwError>>(Error::I2c(e)),
        },
{
    match reply {
        Ok(raw) => Ok(raw),
        Err(e) => Err(Error::I2c(e)),
    }
}

/// The value of a LINEAR11 word.
pub fn read_linear11(raw: u16) -> (r: Linear11)
    ensures
        r == linear11_of(raw),
{
    let m: u16 = raw % 0x800;
    let e: u16 = raw / 0x800;
    Linear11 {
        mantissa: if m < 0x400 {
            m as i16
        } else {
            m as i16 - 0x800
        },
        exponent: if e < 0x10 {
            e as i8
        } else {
            e as i8 - 0x20
        },
    }
}

/// The value that a two-byte reply carries; `None` on a NAK or bus error.
fn decode_reply(reply: Option<[u8; 2]>) -> (r: Option<Linear11>)
    ensures
        r == reply_value(reply),
{
    match reply {
        Some(bytes) => Some(read_linear11(bytes[0] as u16 + 0x100 * (bytes[1] as u16))),
        None => None,
    }
}

/// The telemetry sample that the replies to the reads of
/// [`Sic450::read_telemetry`] make: voltage, current and temperature of the
/// first rail, then of the second. A read that got no reply yields `None` for
/// that value and leaves the others alone.
pub fn decode_telemetry(replies: &[Option<[u8; 2]>; 6]) -> (r: Sic450Telemetry)
    ensures
        r.rails@[0] == rail_of(replies@[0], replies@[1], replies@[2]),
        r.rails@[1] == rail_of(replies@[3], replies@[4], replies@[5]),
{
    let first = RailTelemetry {
        vout_v: decode_reply(replies[0]),
        iout_a: decode_reply(replies[1]),
        temp_c: decode_reply(replies[2]),
    };
    let second = RailTelemetry {
        vout_v: decode_reply(replies[3]),
        iout_a: decode_reply(replies[4]),
        temp_c: decode_reply(replies[5]),
    };
    Sic450Telemetry { rails: [first, second] }
}

/// The LINEAR11 word of a value.
pub open spec fn linear11_word(value: Linear11) -> int {
    0x800 * (value.exponent as int % 0x20) + value.mantissa as int % 0x800
}

/// Every LINEAR11 word is the word of its value: decoding loses nothing.
pub proof fn lemma_linear11_round_trip(raw: u16)
    ensures
        linear11_word(linear11_of(raw)) == raw,
        -0x400 <= linear11_of(raw).mantissa < 0x400,
        -0x10 <= linear11_of(raw).exponent < 0x10,
{
}

} // verus!
