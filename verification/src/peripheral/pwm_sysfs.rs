//! Sysfs PWM backend (`/sys/class/pwm`).
//!
//! A PWM channel is exported via `pwmchip{N}/export`, then driven through
//! `period`, `duty_cycle`, and `enable` in the `pwm{M}` directory. Values are
//! nanoseconds as decimal strings (sysfs convention).
//!
//! Apollo III usage:
//!
//! - PSU output voltage = `pwmchip1/pwm0`: period 40000 ns, duty 20000
//!   (~5.0 V) up to 36000 (~6.1 V). The vendor ramps duty to set voltage;
//!   `VOUT_COMMAND` PMBus writes are not used on this board revision.
//! - Fan = `pwmchip0/pwm0` (`fd8b0010.pwm`, `npwm = 1`).
//!
//! The sysfs root is injectable via [`PwmSysfs::with_root`]; it defaults to
//! `/sys/class/pwm`.

use crate::hw_trait::sysfs::SysfsWrite;
use crate::hw_trait::HwError;
use crate::text::{
    decimal, decimal_text, is_whitespace, join, joined, lemma_decimal_round_trip,
    lemma_trim_keeps_digits, parse_unsigned, trim, trim_end, trim_start, trimmed, unsigned_up_to,
};
use vstd::prelude::*;
use vstd::string::StringExecFns;

verus! {

/// `text` as a quoted, escaped Rust string literal: what `{:?}` prints.
pub uninterp spec fn quoted(text: Seq<char>) -> Seq<char>;

/// `<str as Debug>::fmt`, through `format!("{:?}", ..)`: the text as a quoted
/// and escaped literal, a function of the text alone.
#[verifier::external_body]
fn quote(text: &str) -> (r: String)
    ensures
        r@ == quoted(text@),
{
    format!("{:?}", text)
}

/// Sysfs PWM channel.
#[derive(Debug)]
pub struct PwmSysfs {
    /// Root directory holding the `pwmchip{N}` directories.
    root: String,
    /// PWM chip index.
    chip: u32,
    /// Channel index within the chip.
    channel: u32,
}

impl Clone for PwmSysfs {
    fn clone(&self) -> (r: Self)
        ensures
            r@ == self@,
    {
        PwmSysfs { root: self.root.clone(), chip: self.chip, channel: self.channel }
    }
}

/// Where a PWM channel is found.
pub struct PwmChannel {
    /// Root directory holding the `pwmchip{N}` directories.
    pub root: Seq<char>,
    /// PWM chip index.
    pub chip: u32,
    /// Channel index within the chip.
    pub channel: u32,
}

impl View for PwmSysfs {
    type V = PwmChannel;

    closed spec fn view(&self) -> PwmChannel {
        PwmChannel { root: self.root@, chip: self.chip, channel: self.channel }
    }
}

impl PwmChannel {
    /// Path of the chip directory.
    pub open spec fn chip_dir(self) -> Seq<char> {
        joined(self.root, "pwmchip"@ + decimal_text(self.chip as nat))
    }

    /// Path of the channel directory.
    pub open spec fn pwm_dir(self) -> Seq<char> {
        joined(self.chip_dir(), "pwm"@ + decimal_text(self.channel as nat))
    }

    /// `r` writes `contents` to the attribute `attr` of an exported channel,
    /// and is an error that names the channel where it is not exported.
    pub open spec fn writes(
        self,
        exported: bool,
        attr: Seq<char>,
        contents: Seq<char>,
        r: Result<SysfsWrite, HwError>,
    ) -> bool {
        if exported {
            r matches Ok(w) && w.path@ == joined(self.pwm_dir(), attr) && w.contents@ == contents
        } else {
            r matches Err(HwError::Other(text)) && text@ == self.not_exported()
        }
    }

    /// What is reported of a channel that is not exported.
    pub open spec fn not_exported(self) -> Seq<char> {
        "pwm channel "@ + decimal_text(self.channel as nat) + " is not exported (missing "@
            + self.pwm_dir() + ")"@
    }
}

/// `r` is the number that an attribute with this text holds, and an error
/// that quotes the text where it holds none.
pub open spec fn reads_number(label: Seq<char>, text: Seq<char>, r: Result<u64, HwError>) -> bool {
    match unsigned_up_to(trimmed(text), u64::MAX as nat) {
        Some(v) => r matches Ok(n) && n == v,
        None => r matches Err(HwError::Other(message)) && message@ == label + quoted(text),
    }
}

impl PwmSysfs {
    /// Create a channel rooted at `/sys/class/pwm`.
    pub fn new(chip: u32, channel: u32) -> (r: Self)
        ensures
            r@ == (PwmChannel { root: "/sys/class/pwm"@, chip, channel }),
    {
        Self::with_root(String::from_str("/sys/class/pwm"), chip, channel)
    }

    /// Create a channel rooted at `root` (used by tests with a mock tree).
    pub fn with_root(root: String, chip: u32, channel: u32) -> (r: Self)
        ensures
            r@ == (PwmChannel { root: root@, chip, channel }),
    {
        PwmSysfs { root, chip, channel }
    }

    /// Path of the chip directory.
    pub fn chip_dir(&self) -> (dir: String)
        ensures
            dir@ == self@.chip_dir(),
    {
        let name = String::from_str("pwmchip").concat(decimal(self.chip as u64).as_str());
        join(self.root.as_str(), name.as_str())
    }

    /// Path of the channel directory.
    pub fn pwm_dir(&self) -> (dir: String)
        ensures
            dir@ == self@.pwm_dir(),
    {
        let name = String::from_str("pwm").concat(decimal(self.channel as u64).as_str());
        join(self.chip_dir().as_str(), name.as_str())
    }

    /// The write that exports the channel. A missing chip directory is a hard
    /// error; `chip_exists` says whether the directory is there.
    pub fn export(&self, chip_exists: bool) -> (r: Result<SysfsWrite, HwError>)
        ensures
            match r {
                Ok(w) => {
                    &&& chip_exists
                    &&& w.path@ == joined(self@.chip_dir(), "export"@)
                    &&& w.contents@ == decimal_text(self@.channel as nat) + "\n"@
                },
                Err(HwError::Other(text)) => {
                    &&& !chip_exists
                    &&& text@ == "pwmchip"@ + decimal_text(self@.chip as nat)
                        + " not found under "@ + self@.root
                },
                Err(_) => false,
            },
    {
        if !chip_exists {
            let text = String::from_str("pwmchip").concat(
                decimal(self.chip as u64).as_str(),
            ).concat(" not found under ").concat(self.root.as_str());
            return Err(HwError::Other(text));
        }
        Ok(
            SysfsWrite {
                path: join(self.chip_dir().as_str(), "export"),
                contents: decimal(self.channel as u64).concat("\n"),
            },
        )
    }

    /// The error when the channel directory does not appear after an export.
    pub fn missing_channel(&self) -> (e: HwError)
        ensures
            e matches HwError::Other(text) && text@ == "pwm channel "@ + decimal_text(
                self@.channel as nat,
            ) + " did not appear under "@ + self@.chip_dir() + " after export"@,
    {
        let text = String::from_str("pwm channel ").concat(
            decimal(self.channel as u64).as_str(),
        ).concat(" did not appear under ").concat(self.chip_dir().as_str()).concat(" after export");
        HwError::Other(text)
    }

    /// The write that sets the PWM period in nanoseconds.
    pub fn set_period_ns(&self, period_ns: u64, exported: bool) -> (r: Result<SysfsWrite, HwError>)
        ensures
            self@.writes(exported, "period"@, decimal_text(period_ns as nat), r),
    {
        self.write_attr("period", decimal(period_ns), exported)
    }

    /// The write that sets the PWM duty cycle in nanoseconds (must not exceed
    /// the period).
    pub fn set_duty_ns(&self, duty_ns: u64, exported: bool) -> (r: Result<SysfsWrite, HwError>)
        ensures
            self@.writes(exported, "duty_cycle"@, decimal_text(duty_ns as nat), r),
    {
        self.write_attr("duty_cycle", decimal(duty_ns), exported)
    }

    /// Path of the attribute that holds the duty cycle.
    pub fn duty_path(&self) -> (path: String)
        ensures
            path@ == joined(self@.pwm_dir(), "duty_cycle"@),
    {
        join(self.pwm_dir().as_str(), "duty_cycle")
    }

    /// Path of the attribute that holds the period.
    pub fn period_path(&self) -> (path: String)
        ensures
            path@ == joined(self@.pwm_dir(), "period"@),
    {
        join(self.pwm_dir().as_str(), "period")
    }

    /// The duty cycle in nanoseconds from the text of its attribute.
    pub fn get_duty_ns(&self, text: &str) -> (r: Result<u64, HwError>)
        ensures
            reads_number("unparseable PWM duty: "@, text@, r),
    {
        parse_attr("unparseable PWM duty: ", text)
    }

    /// The period in nanoseconds from the text of its attribute.
    pub fn get_period_ns(&self, text: &str) -> (r: Result<u64, HwError>)
        ensures
            reads_number("unparseable PWM period: "@, text@, r),
    {
        parse_attr("unparseable PWM period: ", text)
    }

    /// The write that enables the PWM output (`1` to `enable`).
    pub fn enable(&self, exported: bool) -> (r: Result<SysfsWrite, HwError>)
        ensures
            self@.writes(exported, "enable"@, "1"@, r),
    {
        self.write_attr("enable", String::from_str("1"), exported)
    }

    /// The write that disables the PWM output (`0` to `enable`).
    pub fn disable(&self, exported: bool) -> (r: Result<SysfsWrite, HwError>)
        ensures
            self@.writes(exported, "enable"@, "0"@, r),
    {
        self.write_attr("enable", String::from_str("0"), exported)
    }

    /// The write of a channel attribute; an error if the channel is not
    /// exported. `exported` says whether the channel directory is there.
    fn write_attr(&self, attr: &str, contents: String, exported: bool) -> (r: Result<
        SysfsWrite,
        HwError,
    >)
        ensures
            self@.writes(exported, attr@, contents@, r),
    {
        if !exported {
            let text = String::from_str("pwm channel ").concat(
                decimal(self.channel as u64).as_str(),
            ).concat(" is not exported (missing ").concat(self.pwm_dir().as_str()).concat(")");
            return Err(HwError::Other(text));
        }
        Ok(SysfsWrite { path: join(self.pwm_dir().as_str(), attr), contents })
    }
}

/// The number that an attribute with this text holds.
fn parse_attr(label: &str, text: &str) -> (r: Result<u64, HwError>)
    ensures
        reads_number(label@, text@, r),
{
    match parse_unsigned(trim(text), u64::MAX) {
        Some(n) => Ok(n),
        None => Err(HwError::Other(String::from_str(label).concat(quote(text).as_str()))),
    }
}

/// A duty or period is read back from the text that sets it, with or without
/// the newline that the kernel adds.
pub proof fn lemma_number_round_trip(n: u64)
    ensures
        unsigned_up_to(trimmed(decimal_text(n as nat)), u64::MAX as nat) == Some(n as nat),
        unsigned_up_to(trimmed(decimal_text(n as nat) + "\n"@), u64::MAX as nat) == Some(n as nat),
{
    let s = decimal_text(n as nat);
    lemma_decimal_round_trip(n as nat);
    lemma_trim_keeps_digits(s);
    reveal_strlit("\n");
    let t = s + "\n"@;
    assert(t.last() == '\n' && is_whitespace(t.last()));
    assert(t.drop_last() =~= s);
    assert(crate::text::is_digit(s[0]));
    assert(t[0] == s[0]);
    assert(trim_start(t) == t);
    assert(trim_start(s) == s);
    assert(trim_end(t) == trim_end(s));
}

} // verus!
