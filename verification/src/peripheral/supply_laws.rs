//! What is read from and written to the supply and its PWM channel.

use super::pwm_sysfs::{quoted, reads_number, PwmChannel};
use super::sic450::{
    linear11_of, linear11_word, rail_exchanges, rail_of, reply_value, Exchange, Linear11,
};
use crate::hw_trait::sysfs::SysfsWrite;
use crate::hw_trait::HwError;
use crate::text::{
    decimal_text, is_digit, joined, lemma_decimal_round_trip, lemma_trim_keeps_digits, trimmed,
    unsigned_value,
};
use vstd::prelude::*;

verus! {

/// Where a channel is found: `pwm` and its number, in `pwmchip` and the
/// chip's number, under the root.
pub proof fn lemma_channel_paths(channel: PwmChannel)
    ensures
        channel.chip_dir() == joined(
            channel.root,
            "pwmchip"@ + decimal_text(channel.chip as nat),
        ),
        channel.root.len() > 0 && channel.root.last() != '/' ==> channel.chip_dir()
            == channel.root + "/pwmchip"@ + decimal_text(channel.chip as nat),
        channel.pwm_dir() == channel.chip_dir() + "/pwm"@ + decimal_text(channel.channel as nat),
        channel.pwm_dir().len() > 0,
        channel.pwm_dir().last() != '/',
{
    reveal_strlit("pwmchip");
    reveal_strlit("/pwmchip");
    reveal_strlit("pwm");
    reveal_strlit("/pwm");
    let chip = decimal_text(channel.chip as nat);
    let number = decimal_text(channel.channel as nat);
    lemma_decimal_round_trip(channel.chip as nat);
    lemma_decimal_round_trip(channel.channel as nat);
    assert(is_digit(chip[chip.len() - 1]));
    assert(is_digit(number[number.len() - 1]));
    if channel.root.len() > 0 && channel.root.last() != '/' {
        assert(channel.chip_dir() =~= channel.root + "/pwmchip"@ + chip);
    }
    assert(channel.chip_dir().last() == chip.last());
    assert(channel.pwm_dir() =~= channel.chip_dir() + "/pwm"@ + number);
    assert(channel.pwm_dir().last() == number.last());
}

/// A channel attribute is written exactly if the channel is exported, under
/// the channel's directory and with the text asked for. Otherwise the error
/// names the channel and the directory that is missing.
pub proof fn lemma_attribute_writes(
    channel: PwmChannel,
    exported: bool,
    attr: Seq<char>,
    text: Seq<char>,
    r: Result<SysfsWrite, HwError>,
)
    requires
        channel.writes(exported, attr, text, r),
    ensures
        exported <==> r is Ok,
        r matches Ok(w) ==> w.path@ == joined(channel.pwm_dir(), attr),
        r matches Ok(w) ==> (attr.len() > 0 && attr[0] != '/' ==> w.path@ == channel.pwm_dir()
            + seq!['/'] + attr),
        r matches Ok(w) ==> w.contents@ == text,
        r matches Err(e) ==> (e matches HwError::Other(message) && message@ == "pwm channel "@
            + decimal_text(channel.channel as nat) + " is not exported (missing "@
            + channel.pwm_dir() + ")"@),
{
    lemma_channel_paths(channel);
    assert(channel.pwm_dir().push('/') + attr =~= channel.pwm_dir() + seq!['/'] + attr);
}

/// A number in an attribute is read as that number, whatever white space is
/// around it; anything else, and a number over 64 bits, is an error that
/// quotes the text.
pub proof fn lemma_attribute_reads(
    label: Seq<char>,
    text: Seq<char>,
    n: nat,
    r: Result<u64, HwError>,
)
    requires
        reads_number(label, text, r),
    ensures
        text == decimal_text(n) && n <= u64::MAX ==> (r matches Ok(v) && v == n),
        unsigned_value(trimmed(text)) == Some(n) && n <= u64::MAX ==> (r matches Ok(v) && v == n),
        unsigned_value(trimmed(text)) == Some(n) && n > u64::MAX ==> r is Err,
        unsigned_value(trimmed(text)) is None ==> r is Err,
        r matches Err(e) ==> (e matches HwError::Other(message) && message@ == label + quoted(
            text,
        )),
{
    lemma_decimal_round_trip(n);
    lemma_trim_keeps_digits(decimal_text(n));
}

/// A LINEAR11 word is an exponent of five bits above a mantissa of eleven, both
/// in two's complement.
pub proof fn lemma_linear11_fields(raw: u16)
    ensures
        ({
            let v = linear11_of(raw);
            &&& raw % 0x800 < 0x400 ==> v.mantissa == raw % 0x800
            &&& raw % 0x800 >= 0x400 ==> v.mantissa == raw % 0x800 - 0x800
            &&& raw < 0x8000 ==> v.exponent == raw / 0x800
            &&& raw >= 0x8000 ==> v.exponent == raw / 0x800 - 0x20
        }),
{
}

/// Every value in range has a word, and is read back from it.
pub proof fn lemma_linear11_reads_back(value: Linear11)
    requires
        -0x400 <= value.mantissa < 0x400,
        -0x10 <= value.exponent < 0x10,
    ensures
        0 <= linear11_word(value) < 0x1_0000,
        linear11_of(linear11_word(value) as u16) == value,
{
    let w = linear11_word(value);
    let e = value.exponent as int % 0x20;
    let m = value.mantissa as int % 0x800;
    assert(w / 0x800 == e && w % 0x800 == m);
}

/// A rail is read with its page selected first, and then voltage, current and
/// temperature, two bytes each, all from the same device.
pub proof fn lemma_rail_is_read(address: u8, rail: u8)
    ensures
        ({
            let all = rail_exchanges(address, rail);
            &&& all.len() == 4
            &&& all[0] == (Exchange::Write { address, command: 0x00, value: rail })
            &&& all[1] == (Exchange::WriteRead { address, command: 0x8b, len: 2 })
            &&& all[2] == (Exchange::WriteRead { address, command: 0x8c, len: 2 })
            &&& all[3] == (Exchange::WriteRead { address, command: 0x8d, len: 2 })
        }),
{
}

/// A reply carries the word that its two bytes spell, low byte first; a read
/// without a reply carries nothing. Each of a rail's replies stands for its
/// own value and no other.
pub proof fn lemma_rail_replies(
    vout: Option<[u8; 2]>,
    iout: Option<[u8; 2]>,
    temp: Option<[u8; 2]>,
)
    ensures
        rail_of(vout, iout, temp).vout_v == reply_value(vout),
        rail_of(vout, iout, temp).iout_a == reply_value(iout),
        rail_of(vout, iout, temp).temp_c == reply_value(temp),
        vout is None <==> reply_value(vout) is None,
        vout matches Some(bytes) ==> (reply_value(vout) matches Some(v) && linear11_word(v)
            == bytes@[0] + 0x100 * bytes@[1]),
{
    if let Some(bytes) = vout {
        super::sic450::lemma_linear11_round_trip((bytes@[0] + 0x100 * bytes@[1]) as u16);
    }
}

} // verus!
