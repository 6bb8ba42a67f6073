//! Linux GPIO backend via the sysfs interface (`/sys/class/gpio`).
//!
//! A GPIO line is exported by writing its number to the `export` attribute,
//! then driven through the `direction` and `value` files of the per-line
//! directory (`/sys/class/gpio/gpio{N}`).
//!
//! Apollo III usage (all lines fit in a `u8` pin number):
//!
//! - 148: board-MCU heartbeat clock, output high
//! - 115: ASIC reset, pulse `0 -> 1`
//! - 100: ASIC rail power (`active_low = 0`, so `value = 1` is ON)
//! - 138: thermal trip, input
//!
//! The root directory is injectable via [`SysfsGpio::with_root`]; it defaults
//! to `/sys/class/gpio`.

use super::sysfs::SysfsWrite;
use super::{HwError, PinMode, PinValue};
use crate::text::{
    decimal, decimal_text, is_whitespace, join, joined, trim, trim_end, trim_start, trimmed,
};
use vstd::prelude::*;
use vstd::string::{StrSliceExecFns, StringExecFns};

verus! {

/// Default sysfs GPIO root.
pub const DEFAULT_ROOT: &'static str = "/sys/class/gpio";

/// Sysfs GPIO controller.
#[derive(Debug)]
pub struct SysfsGpio {
    root: String,
}

impl Clone for SysfsGpio {
    fn clone(&self) -> (r: Self)
        ensures
            r.root() == self.root(),
    {
        SysfsGpio { root: self.root.clone() }
    }
}

/// Path of the `gpio{N}` line directory under `root`.
pub open spec fn line_path(root: Seq<char>, number: u8) -> Seq<char> {
    joined(root, "gpio"@ + decimal_text(number as nat))
}

impl SysfsGpio {
    /// The directory that holds the lines.
    pub closed spec fn root(self) -> Seq<char> {
        self.root@
    }

    /// Create a controller rooted at `/sys/class/gpio`.
    pub fn new() -> (r: Self)
        ensures
            r.root() == DEFAULT_ROOT@,
            r.root() == "/sys/class/gpio"@,
    {
        Self::with_root(String::from_str(DEFAULT_ROOT))
    }

    /// Create a controller rooted at `root` (used by tests with a mock tree).
    pub fn with_root(root: String) -> (r: Self)
        ensures
            r.root() == root@,
    {
        SysfsGpio { root }
    }

    /// Path of the `gpio{N}` line directory.
    pub fn line_dir(&self, number: u8) -> (dir: String)
        ensures
            dir@ == line_path(self.root(), number),
    {
        let name = String::from_str("gpio").concat(decimal(number as u64).as_str());
        join(self.root.as_str(), name.as_str())
    }

    /// The write that exports line `number`.
    pub fn export_line(&self, number: u8) -> (w: SysfsWrite)
        ensures
            w.path@ == joined(self.root(), "export"@),
            w.contents@ == decimal_text(number as nat) + "\n"@,
    {
        SysfsWrite {
            path: join(self.root.as_str(), "export"),
            contents: decimal(number as u64).concat("\n"),
        }
    }

    /// The error when the directory of line `number` does not appear after
    /// its export.
    pub fn missing_line(&self, number: u8) -> (e: HwError)
        ensures
            e matches HwError::Other(text) && text@ == "line gpio"@ + decimal_text(number as nat)
                + " did not appear under "@ + self.root() + " after export"@,
    {
        let text = String::from_str("line gpio").concat(decimal(number as u64).as_str()).concat(
            " did not appear under ",
        ).concat(self.root.as_str()).concat(" after export");
        HwError::Other(text)
    }

    /// Line `number`, once it is exported.
    pub fn pin(&self, number: u8) -> (pin: SysfsGpioPin)
        ensures
            pin.dir() == line_path(self.root(), number),
    {
        SysfsGpioPin { dir: self.line_dir(number) }
    }
}

impl Default for SysfsGpio {
    fn default() -> (r: Self)
        ensures
            r.root() == DEFAULT_ROOT@,
            r.root() == "/sys/class/gpio"@,
    {
        Self::new()
    }
}

/// A single exported sysfs GPIO line.
#[derive(Debug)]
pub struct SysfsGpioPin {
    /// Path of the `gpio{N}` directory.
    dir: String,
}

impl Clone for SysfsGpioPin {
    fn clone(&self) -> (r: Self)
        ensures
            r.dir() == self.dir(),
    {
        SysfsGpioPin { dir: self.dir.clone() }
    }
}

/// The text that stands for a direction.
pub open spec fn mode_text(mode: PinMode) -> Seq<char> {
    match mode {
        PinMode::Input => "in"@,
        PinMode::Output => "out"@,
    }
}

/// The text that stands for a level.
pub open spec fn value_text(value: PinValue) -> Seq<char> {
    match value {
        PinValue::Low => "0"@,
        PinValue::High => "1"@,
    }
}

/// The level that a `value` attribute with this text shows: high exactly when
/// it is `1`, white space around it aside.
pub open spec fn shown_value(text: Seq<char>) -> PinValue {
    if trimmed(text) == seq!['1'] {
        PinValue::High
    } else {
        PinValue::Low
    }
}

impl SysfsGpioPin {
    /// The directory of the line.
    pub closed spec fn dir(self) -> Seq<char> {
        self.dir@
    }

    /// Path of a sysfs attribute inside the line directory.
    pub fn attr(&self, name: &str) -> (path: String)
        ensures
            path@ == joined(self.dir(), name@),
    {
        join(self.dir.as_str(), name)
    }

    /// The write that sets the direction.
    pub fn set_mode(&self, mode: PinMode) -> (w: SysfsWrite)
        ensures
            w.path@ == joined(self.dir(), "direction"@),
            w.contents@ == mode_text(mode),
    {
        let contents = match mode {
            PinMode::Input => "in",
            PinMode::Output => "out",
        };
        SysfsWrite { path: self.attr("direction"), contents: String::from_str(contents) }
    }

    /// The write that drives the level.
    pub fn write(&self, value: PinValue) -> (w: SysfsWrite)
        ensures
            w.path@ == joined(self.dir(), "value"@),
            w.contents@ == value_text(value),
    {
        let contents = match value {
            PinValue::Low => "0",
            PinValue::High => "1",
        };
        SysfsWrite { path: self.attr("value"), contents: String::from_str(contents) }
    }

    /// The level that the text read from the `value` attribute shows.
    pub fn read(&self, text: &str) -> (value: PinValue)
        ensures
            value == shown_value(text@),
    {
        let t = trim(text);
        if t.unicode_len() == 1 && t.get_char(0) == '1' {
            assert(t@ =~= seq!['1']);
            PinValue::High
        } else {
            PinValue::Low
        }
    }
}

/// A level is read back from the text that drives it, with or without the
/// newline that the kernel adds.
pub proof fn lemma_value_round_trip(value: PinValue)
    ensures
        shown_value(value_text(value)) == value,
        shown_value(value_text(value) + "\n"@) == value,
{
    reveal_strlit("0");
    reveal_strlit("1");
    reveal_strlit("\n");
    let s = value_text(value);
    let t = s + "\n"@;
    assert(s.len() == 1 && !is_whitespace(s[0]));
    assert(trim_start(s) == s && trim_end(s) == s);
    assert(t.last() == '\n' && is_whitespace(t.last()));
    assert(t.drop_last() =~= s);
    assert(trim_start(t) == t);
    assert(value == PinValue::High ==> s =~= seq!['1']);
    assert(value == PinValue::Low ==> s[0] == '0');
}

} // verus!
