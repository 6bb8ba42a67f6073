//! Decimal numbers and paths as text, the way sysfs and the environment
//! spell them.

use vstd::prelude::*;
use vstd::string::{StrSliceExecFns, StringExecFns};

verus! {

/// The decimal digit `d` as a character.
pub open spec fn digit_char(d: nat) -> char {
    (48 + d) as char
}

/// `n` in decimal, without leading zeros.
pub open spec fn decimal_text(n: nat) -> Seq<char>
    decreases n,
{
    if n < 10 {
        seq![digit_char(n)]
    } else {
        decimal_text(n / 10).push(digit_char(n % 10))
    }
}

/// `c` is a decimal digit.
pub open spec fn is_digit(c: char) -> bool {
    48 <= c as u32 <= 57
}

/// `s` is one or more decimal digits.
pub open spec fn all_digits(s: Seq<char>) -> bool {
    s.len() > 0 && forall|i: int| 0 <= i < s.len() ==> is_digit(#[trigger] s[i])
}

/// The number that a run of decimal digits spells.
pub open spec fn digits_value(s: Seq<char>) -> nat
    decreases s.len(),
{
    if s.len() == 0 {
        0
    } else {
        10 * digits_value(s.drop_last()) + (s.last() as u32 - 48) as nat
    }
}

/// The number that `s` spells: decimal digits with an optional `+` before
/// them, and nothing else.
pub open spec fn unsigned_value(s: Seq<char>) -> Option<nat> {
    if all_digits(s) {
        Some(digits_value(s))
    } else if s.len() > 0 && s[0] == '+' && all_digits(s.drop_first()) {
        Some(digits_value(s.drop_first()))
    } else {
        None
    }
}

/// The number that `s` spells, where it is at most `max`.
pub open spec fn unsigned_up_to(s: Seq<char>, max: nat) -> Option<nat> {
    match unsigned_value(s) {
        Some(v) => if v <= max {
            Some(v)
        } else {
            None
        },
        None => None,
    }
}

/// `c` has the Unicode property `White_Space`.
pub open spec fn is_whitespace(c: char) -> bool {
    let u = c as u32;
    ||| 0x9 <= u <= 0xd
    ||| u == 0x20
    ||| u == 0x85
    ||| u == 0xa0
    ||| u == 0x1680
    ||| 0x2000 <= u <= 0x200a
    ||| u == 0x2028
    ||| u == 0x2029
    ||| u == 0x202f
    ||| u == 0x205f
    ||| u == 0x3000
}

/// `s` without the white space it begins with.
pub open spec fn trim_start(s: Seq<char>) -> Seq<char>
    decreases s.len(),
{
    if s.len() > 0 && is_whitespace(s[0]) {
        trim_start(s.drop_first())
    } else {
        s
    }
}

/// `s` without the white space it ends with.
pub open spec fn trim_end(s: Seq<char>) -> Seq<char>
    decreases s.len(),
{
    if s.len() > 0 && is_whitespace(s.last()) {
        trim_end(s.drop_last())
    } else {
        s
    }
}

/// `s` without the white space around it.
pub open spec fn trimmed(s: Seq<char>) -> Seq<char> {
    trim_end(trim_start(s))
}

/// The path of `name` in the directory `dir`: a slash goes between them where
/// `dir` is not empty and does not end in one. A name that begins with a slash
/// is a path of its own and takes the place of `dir`.
pub open spec fn joined(dir: Seq<char>, name: Seq<char>) -> Seq<char> {
    if name.len() > 0 && name[0] == '/' {
        name
    } else if dir.len() == 0 || dir.last() == '/' {
        dir + name
    } else {
        dir.push('/') + name
    }
}

/// The decimal digit `d` as text.
fn digit(d: u64) -> (s: &'static str)
    requires
        d < 10,
    ensures
        s@ == seq![digit_char(d as nat)],
{
    proof {
        reveal_strlit("0");
        reveal_strlit("1");
        reveal_strlit("2");
        reveal_strlit("3");
        reveal_strlit("4");
        reveal_strlit("5");
        reveal_strlit("6");
        reveal_strlit("7");
        reveal_strlit("8");
        reveal_strlit("9");
    }
    let s = match d {
        0 => "0",
        1 => "1",
        2 => "2",
        3 => "3",
        4 => "4",
        5 => "5",
        6 => "6",
        7 => "7",
        8 => "8",
        _ => "9",
    };
    assert(s@ =~= seq![digit_char(d as nat)]);
    s
}

/// `n` in decimal, without leading zeros.
pub fn decimal(n: u64) -> (s: String)
    ensures
        s@ == decimal_text(n as nat),
    decreases n,
{
    if n < 10 {
        String::from_str(digit(n))
    } else {
        let head = decimal(n / 10);
        let s = head.concat(digit(n % 10));
        assert(s@ =~= decimal_text(n as nat));
        s
    }
}

/// The path of `name` in the directory `dir`; see [`joined`].
pub fn join(dir: &str, name: &str) -> (path: String)
    ensures
        path@ == joined(dir@, name@),
{
    if name.unicode_len() > 0 && name.get_char(0) == '/' {
        return String::from_str(name);
    }
    let mut path = String::from_str(dir);
    let len: usize = dir.unicode_len();
    proof {
        reveal_strlit("/");
    }
    if len > 0 && dir.get_char(len - 1) != '/' {
        path.append("/");
        assert(path@ =~= dir@.push('/'));
    }
    path.append(name);
    path
}

fn whitespace(c: char) -> (r: bool)
    ensures
        r == is_whitespace(c),
{
    let u: u32 = c as u32;
    (0x9 <= u && u <= 0xd) || u == 0x20 || u == 0x85 || u == 0xa0 || u == 0x1680 || (0x2000 <= u
        && u <= 0x200a) || u == 0x2028 || u == 0x2029 || u == 0x202f || u == 0x205f || u == 0x3000
}

/// `s` without the white space around it.
pub fn trim(s: &str) -> (r: &str)
    ensures
        r@ == trimmed(s@),
{
    let len: usize = s.unicode_len();
    let mut from: usize = 0;
    assert(s@.skip(0) =~= s@);
    while from < len && whitespace(s.get_char(from))
        invariant
            from <= len == s@.len(),
            trim_start(s@) == trim_start(s@.skip(from as int)),
        decreases len - from,
    {
        assert(s@.skip(from as int).drop_first() =~= s@.skip(from + 1));
        from = from + 1;
    }
    let mut to: usize = len;
    assert(s@.subrange(from as int, len as int) =~= s@.skip(from as int));
    while to > from && whitespace(s.get_char(to - 1))
        invariant
            from <= to <= len == s@.len(),
            trimmed(s@) == trim_end(s@.subrange(from as int, to as int)),
        decreases to,
    {
        assert(s@.subrange(from as int, to as int).drop_last() =~= s@.subrange(
            from as int,
            to - 1,
        ));
        to = to - 1;
    }
    s.substring_char(from, to)
}

/// The number that `s` spells in decimal, with an optional `+` before it,
/// where it is at most `max`.
pub fn parse_unsigned(s: &str, max: u64) -> (r: Option<u64>)
    ensures
        match r {
            Some(v) => unsigned_up_to(s@, max as nat) == Some(v as nat),
            None => unsigned_up_to(s@, max as nat) is None,
        },
{
    let len: usize = s.unicode_len();
    let signed = len > 0 && s.get_char(0) == '+';
    let start: usize = if signed {
        1
    } else {
        0
    };
    let ghost digits = s@.skip(start as int);
    proof {
        assert(s@.skip(0) =~= s@);
        if signed {
            assert(s@.skip(1) =~= s@.drop_first());
        }
        if signed {
            assert(!is_digit(s@[0]));
        }
        assert(unsigned_value(s@) == if all_digits(digits) {
            Some(digits_value(digits))
        } else {
            None
        });
    }
    if len == start {
        return None;
    }
    let mut value: u64 = 0;
    let mut i: usize = start;
    assert(digits.take(0) =~= Seq::empty());
    while i < len
        invariant
            start <= i <= len == s@.len(),
            digits == s@.skip(start as int),
            unsigned_value(s@) == (if all_digits(digits) {
                Some(digits_value(digits))
            } else {
                None
            }),
            forall|j: int| 0 <= j < i - start ==> is_digit(#[trigger] digits[j]),
            value == digits_value(digits.take(i - start)),
            value <= max,
        decreases len - i,
    {
        let c: char = s.get_char(i);
        let u: u32 = c as u32;
        assert(c == digits[i - start]);
        if u < 48 || u > 57 {
            assert(!is_digit(digits[i - start]));
            return None;
        }
        let d: u64 = (u - 48) as u64;
        assert(digits.take(i - start + 1).drop_last() =~= digits.take(i - start));
        assert(digits.take(i - start + 1).last() == c);
        if value > max / 10 || d > max - value * 10 {
            proof {
                if all_digits(digits) {
                    lemma_digits_value_grows(digits, i - start + 1);
                }
            }
            return None;
        }
        value = value * 10 + d;
        i = i + 1;
    }
    assert(digits.take(i - start) =~= digits);
    Some(value)
}

/// A longer run of digits spells a number that is no smaller.
proof fn lemma_digits_value_grows(s: Seq<char>, n: int)
    requires
        0 <= n <= s.len(),
    ensures
        digits_value(s.take(n)) <= digits_value(s),
    decreases s.len(),
{
    if n == s.len() {
        assert(s.take(n) =~= s);
    } else {
        let shorter = s.drop_last();
        lemma_digits_value_grows(shorter, n);
        assert(shorter.take(n) =~= s.take(n));
    }
}

/// Every number is read back from its decimal text.
pub proof fn lemma_decimal_round_trip(n: nat)
    ensures
        all_digits(decimal_text(n)),
        digits_value(decimal_text(n)) == n,
        unsigned_value(decimal_text(n)) == Some(n),
    decreases n,
{
    let s = decimal_text(n);
    if n < 10 {
        assert(s.drop_last() =~= Seq::empty());
        assert(digits_value(Seq::<char>::empty()) == 0);
        assert(is_digit(s[0]));
    } else {
        lemma_decimal_round_trip(n / 10);
        let head = decimal_text(n / 10);
        assert(s.drop_last() =~= head);
        assert forall|i: int| 0 <= i < s.len() implies is_digit(#[trigger] s[i]) by {
            if i < head.len() {
                assert(s[i] == head[i]);
            }
        }
    }
}

/// Digits carry no white space around them, so trimming keeps them.
pub proof fn lemma_trim_keeps_digits(s: Seq<char>)
    requires
        all_digits(s),
    ensures
        trimmed(s) == s,
{
    assert(is_digit(s[0]));
    assert(is_digit(s[s.len() - 1]));
}

/// Reading a decimal number digit by digit: one more digit behind a run makes
/// ten times its number plus the digit, `0` to `9` being 0 to 9.
pub proof fn lemma_digits_read_on(s: Seq<char>, c: char)
    ensures
        digits_value(Seq::<char>::empty()) == 0,
        is_digit(c) <==> 48 <= c as u32 <= 57,
        is_digit(c) ==> digits_value(s.push(c)) == 10 * digits_value(s) + (c as int - 48),
        all_digits(s) ==> s.len() > 0,
        all_digits(s) && is_digit(c) ==> all_digits(s.push(c)),
        all_digits(s.push(c)) ==> is_digit(c) && (s.len() > 0 ==> all_digits(s)),
{
    assert(s.push(c).drop_last() =~= s);
    if all_digits(s.push(c)) {
        assert(s.push(c)[s.len() as int] == c);
        assert forall|i: int| 0 <= i < s.len() implies is_digit(#[trigger] s[i]) by {
            assert(s.push(c)[i] == s[i]);
        }
    }
}

/// Decimal text is as short as it can be: a number of two digits or more does
/// not begin with `0`, and each further digit means a number ten times as
/// large.
pub proof fn lemma_decimal_is_shortest(n: nat)
    ensures
        decimal_text(n).len() > 1 <==> n >= 10,
        n >= 1 ==> decimal_text(n)[0] != '0',
        decimal_text(10 * n + 7).len() == if n == 0 {
            1
        } else {
            decimal_text(n).len() + 1
        },
    decreases n,
{
    assert((10 * n + 7) / 10 == n);
    if n >= 10 {
        lemma_decimal_is_shortest(n / 10);
    }
}

/// What counts as a number: a run of digits spells its value, with or without
/// one `+` before it and whatever zeros it begins with. Nothing else does: no
/// empty text, no lone `+`, and no text with another character in it.
pub proof fn lemma_what_counts_as_a_number(s: Seq<char>, i: int)
    ensures
        all_digits(s) ==> unsigned_value(s) == Some(digits_value(s)),
        all_digits(s) ==> unsigned_value(seq!['+'] + s) == Some(digits_value(s)),
        all_digits(s) ==> unsigned_value(seq!['0'] + s) == Some(digits_value(s)),
        unsigned_value(Seq::<char>::empty()) is None,
        unsigned_value(seq!['+']) is None,
        0 <= i < s.len() && !(48 <= s[i] as u32 <= 57) && !(i == 0 && s[i] == '+') ==> unsigned_value(
            s,
        ) is None,
        s.len() > 1 && s[0] == '+' && s[1] == '+' ==> unsigned_value(s) is None,
{
    let plus = seq!['+'] + s;
    assert(plus.drop_first() =~= s);
    assert(!is_digit(plus[0]));
    assert(seq!['+'].drop_first().len() == 0);
    assert(!is_digit(seq!['+'][0]));
    if all_digits(s) {
        let zero = seq!['0'] + s;
        assert forall|j: int| 0 <= j < zero.len() implies is_digit(#[trigger] zero[j]) by {
            if j > 0 {
                assert(zero[j] == s[j - 1]);
            }
        }
        lemma_leading_zero(s);
    }
    if 0 <= i < s.len() && !(48 <= s[i] as u32 <= 57) && !(i == 0 && s[i] == '+') {
        assert(!is_digit(s[i]));
        if i > 0 {
            assert(s.drop_first()[i - 1] == s[i]);
        }
    }
    if s.len() > 1 && s[0] == '+' && s[1] == '+' {
        assert(!is_digit(s[0]));
        assert(s.drop_first()[0] == '+');
    }
}

proof fn lemma_leading_zero(s: Seq<char>)
    ensures
        digits_value(seq!['0'] + s) == digits_value(s),
    decreases s.len(),
{
    let zero = seq!['0'] + s;
    if s.len() == 0 {
        assert(zero =~= seq!['0']);
        assert(zero.drop_last() =~= Seq::empty());
        assert(digits_value(zero.drop_last()) == 0);
    } else {
        assert(zero.drop_last() =~= seq!['0'] + s.drop_last());
        lemma_leading_zero(s.drop_last());
    }
}

/// A number that is over the limit does not count; one at the limit does.
pub proof fn lemma_limit_is_allowed(s: Seq<char>, max: nat)
    ensures
        unsigned_value(s) matches Some(v) ==> unsigned_up_to(s, max) == if v <= max {
            Some(v)
        } else {
            None
        },
        unsigned_value(s) is None ==> unsigned_up_to(s, max) is None,
{
}

/// Trimming takes white space off both ends and nothing else: what it leaves
/// neither begins nor ends with white space, and what it took is white space.
pub proof fn lemma_trim_takes_white_space_only(s: Seq<char>)
    ensures
        exists|from: int, to: int|
            {
                &&& 0 <= from <= to <= s.len()
                &&& trimmed(s) == #[trigger] s.subrange(from, to)
                &&& forall|i: int| 0 <= i < from ==> is_whitespace(#[trigger] s[i])
                &&& forall|i: int| to <= i < s.len() ==> is_whitespace(#[trigger] s[i])
            },
        trimmed(s).len() > 0 ==> !is_whitespace(trimmed(s)[0]) && !is_whitespace(trimmed(s).last()),
{
    let from = lemma_trim_start(s);
    let t = trim_start(s);
    let to = lemma_trim_end(t);
    assert(trimmed(s) =~= s.subrange(from, from + to));
    assert forall|i: int| from + to <= i < s.len() implies is_whitespace(#[trigger] s[i]) by {
        assert(t[i - from] == s[i]);
    }
}

proof fn lemma_trim_start(s: Seq<char>) -> (from: int)
    ensures
        0 <= from <= s.len(),
        trim_start(s) == s.skip(from),
        forall|i: int| 0 <= i < from ==> is_whitespace(#[trigger] s[i]),
        from < s.len() ==> !is_whitespace(s[from]),
    decreases s.len(),
{
    if s.len() > 0 && is_whitespace(s[0]) {
        let rest = s.drop_first();
        let k = lemma_trim_start(rest);
        assert(rest.skip(k) =~= s.skip(k + 1));
        assert forall|i: int| 0 <= i < k + 1 implies is_whitespace(#[trigger] s[i]) by {
            if i > 0 {
                assert(rest[i - 1] == s[i]);
            }
        }
        if k + 1 < s.len() {
            assert(rest[k] == s[k + 1]);
        }
        k + 1
    } else {
        assert(s.skip(0) =~= s);
        0
    }
}

proof fn lemma_trim_end(s: Seq<char>) -> (to: int)
    ensures
        0 <= to <= s.len(),
        trim_end(s) == s.take(to),
        forall|i: int| to <= i < s.len() ==> is_whitespace(#[trigger] s[i]),
        to > 0 ==> !is_whitespace(s[to - 1]),
    decreases s.len(),
{
    if s.len() > 0 && is_whitespace(s.last()) {
        let rest = s.drop_last();
        let k = lemma_trim_end(rest);
        assert(rest.take(k) =~= s.take(k));
        assert forall|i: int| k <= i < s.len() implies is_whitespace(#[trigger] s[i]) by {
            if i < rest.len() {
                assert(rest[i] == s[i]);
            }
        }
        k
    } else {
        assert(s.take(s.len() as int) =~= s);
        s.len() as int
    }
}

/// Of the ASCII characters, tab, line feed, vertical tab, form feed, carriage
/// return and space are white space, and no others are.
pub proof fn lemma_ascii_white_space(c: char)
    requires
        (c as u32) < 128,
    ensures
        is_whitespace(c) <==> c as u32 == 9 || c as u32 == 10 || c as u32 == 11 || c as u32 == 12
            || c as u32 == 13 || c as u32 == 32,
{
}

/// Beyond ASCII nineteen characters are white space: next line, the no-break
/// space, the Ogham space, the spaces U+2000 to U+200A, the line and paragraph
/// separators, and the narrow, mathematical and ideographic spaces.
pub proof fn lemma_other_white_space(c: char)
    requires
        c as u32 >= 128,
    ensures
        c as u32 == 0x85 || c as u32 == 0xa0 || c as u32 == 0x1680 ==> is_whitespace(c),
        (c as u32) / 16 == 0x200 ==> (is_whitespace(c) <==> (c as u32) % 16 <= 10),
        (c as u32) / 16 == 0x202 ==> (is_whitespace(c) <==> (c as u32) % 16 == 8 || (c as u32) % 16
            == 9 || (c as u32) % 16 == 15),
        c as u32 == 0x205f || c as u32 == 0x3000 ==> is_whitespace(c),
        is_whitespace(c) ==> c as u32 == 0x85 || c as u32 == 0xa0 || c as u32 == 0x1680 || (
        c as u32) / 16 == 0x200 || (c as u32) / 16 == 0x202 || c as u32 == 0x205f || c as u32
            == 0x3000,
{
}

/// A path under a directory begins with the directory and ends with the name.
/// What stands between them is one slash, or nothing where the directory is
/// empty or ends in a slash. A name with a slash in front stands alone.
pub proof fn lemma_path_parts(dir: Seq<char>, name: Seq<char>)
    ensures
        name.len() > 0 && name[0] == '/' ==> joined(dir, name) == name,
        !(name.len() > 0 && name[0] == '/') && dir.len() > 0 && dir.last() != '/' ==> joined(
            dir,
            name,
        ) == dir + seq!['/'] + name,
        !(name.len() > 0 && name[0] == '/') && (dir.len() == 0 || dir.last() == '/') ==> joined(
            dir,
            name,
        ) == dir + name,
{
    assert(dir.push('/') + name =~= dir + seq!['/'] + name);
}

} // verus!
