//! Integers as they stand on the wire: little- and big-endian byte strings.

use vstd::prelude::*;

verus! {

/// The natural number that `s` spells, least significant byte first.
pub open spec fn le_value(s: Seq<u8>) -> nat
    decreases s.len(),
{
    if s.len() == 0 {
        0
    } else {
        s[0] as nat + 256 * le_value(s.drop_first())
    }
}

/// The natural number that `s` spells, most significant byte first.
pub open spec fn be_value(s: Seq<u8>) -> nat
    decreases s.len(),
{
    if s.len() == 0 {
        0
    } else {
        256 * be_value(s.drop_last()) + s.last() as nat
    }
}

/// The `n` low bytes of `v`, least significant first.
pub open spec fn le_bytes(v: nat, n: nat) -> Seq<u8>
    decreases n,
{
    if n == 0 {
        Seq::empty()
    } else {
        seq![(v % 256) as u8] + le_bytes(v / 256, (n - 1) as nat)
    }
}

/// `le_bytes` yields exactly the number of bytes asked for.
pub proof fn lemma_le_bytes_len(v: nat, n: nat)
    ensures
        le_bytes(v, n).len() == n,
    decreases n,
{
    if n > 0 {
        lemma_le_bytes_len(v / 256, (n - 1) as nat);
    }
}

/// A byte string is recovered from the number it spells and its length.
pub proof fn lemma_le_bytes_of_le_value(s: Seq<u8>)
    ensures
        le_bytes(le_value(s), s.len()) == s,
    decreases s.len(),
{
    if s.len() > 0 {
        let rest = s.drop_first();
        lemma_le_bytes_of_le_value(rest);
        let v = le_value(s);
        assert(v % 256 == s[0] && v / 256 == le_value(rest)) by (nonlinear_arith)
            requires
                v == s[0] as nat + 256 * le_value(rest),
                0 <= s[0] < 256,
        ;
        assert(s =~= seq![s[0]] + rest);
    }
}

/// The two-byte and four-byte forms of `le_bytes`, byte by byte.
pub proof fn lemma_le_bytes_unfold(v: nat)
    ensures
        le_bytes(v, 2) == seq![(v % 256) as u8, (v / 256 % 256) as u8],
        le_bytes(v, 4) == seq![
            (v % 256) as u8,
            (v / 256 % 256) as u8,
            (v / 65536 % 256) as u8,
            (v / 16777216 % 256) as u8,
        ],
{
    reveal_with_fuel(le_bytes, 5);
    assert(v / 256 / 256 == v / 65536 && v / 256 / 256 / 256 == v / 16777216) by (nonlinear_arith);
    assert(le_bytes(v, 2) =~= seq![(v % 256) as u8, (v / 256 % 256) as u8]);
    assert(le_bytes(v, 4) =~= seq![
        (v % 256) as u8,
        (v / 256 % 256) as u8,
        (v / 65536 % 256) as u8,
        (v / 16777216 % 256) as u8,
    ]);
}

/// The two-byte and four-byte forms of `le_value` and the four-byte form of
/// `be_value`, as sums.
pub proof fn lemma_value_unfold(s: Seq<u8>)
    ensures
        s.len() == 2 ==> le_value(s) == s[0] + 256 * s[1],
        s.len() == 4 ==> le_value(s) == s[0] + 256 * s[1] + 65536 * s[2] + 16777216 * s[3],
        s.len() == 4 ==> be_value(s) == 16777216 * s[0] + 65536 * s[1] + 256 * s[2] + s[3],
{
    reveal_with_fuel(le_value, 5);
    reveal_with_fuel(be_value, 5);
    if s.len() == 4 {
        let a = s.drop_first();
        let b = a.drop_first();
        let c = b.drop_first();
        assert(a[0] == s[1] && b[0] == s[2] && c[0] == s[3]);
        let x = s.drop_last();
        let y = x.drop_last();
        let z = y.drop_last();
        assert(x.last() == s[2] && y.last() == s[1] && z.last() == s[0]);
    }
    if s.len() == 2 {
        assert(s.drop_first()[0] == s[1]);
    }
}

/// A number that fits in `n` bytes survives the trip through the wire form.
pub proof fn lemma_le_value_of_le_bytes(v: nat, n: nat)
    requires
        v < vstd::arithmetic::power::pow(256, n),
    ensures
        le_value(le_bytes(v, n)) == v,
    decreases n,
{
    reveal(vstd::arithmetic::power::pow);
    if n > 0 {
        assert(v / 256 < vstd::arithmetic::power::pow(256, (n - 1) as nat)) by (nonlinear_arith)
            requires
                v < 256 * vstd::arithmetic::power::pow(256, (n - 1) as nat),
        ;
        lemma_le_value_of_le_bytes(v / 256, (n - 1) as nat);
        let s = le_bytes(v, n);
        assert(s.drop_first() =~= le_bytes(v / 256, (n - 1) as nat));
    }
}

/// Every 16-bit and every 32-bit word survives the trip through its wire form.
pub proof fn lemma_word_round_trip(v: nat)
    ensures
        v < 0x1_0000 ==> le_value(le_bytes(v, 2)) == v,
        v < 0x1_0000_0000 ==> le_value(le_bytes(v, 4)) == v,
{
    reveal_with_fuel(vstd::arithmetic::power::pow, 5);
    if v < 0x1_0000 {
        lemma_le_value_of_le_bytes(v, 2);
    }
    if v < 0x1_0000_0000 {
        lemma_le_value_of_le_bytes(v, 4);
    }
}

/// The four wire bytes of `v`, least significant first.
pub fn u32_to_le(v: u32) -> (r: [u8; 4])
    ensures
        r@ == le_bytes(v as nat, 4),
{
    proof {
        lemma_le_bytes_unfold(v as nat);
    }
    [
        (v % 256) as u8,
        (v / 256 % 256) as u8,
        (v / 65536 % 256) as u8,
        (v / 16777216 % 256) as u8,
    ]
}

/// The two wire bytes of `v`, least significant first.
pub fn u16_to_le(v: u16) -> (r: [u8; 2])
    ensures
        r@ == le_bytes(v as nat, 2),
{
    proof {
        lemma_le_bytes_unfold(v as nat);
    }
    [(v % 256) as u8, (v / 256 % 256) as u8]
}

/// Eight bytes are the four of the low half and the four of the high half.
proof fn lemma_le_bytes_halves(v: nat)
    ensures
        le_bytes(v, 8) == le_bytes(v % 0x1_0000_0000, 4) + le_bytes(v / 0x1_0000_0000, 4),
{
    let a = v / 256;
    let b = a / 256;
    let c = b / 256;
    let d = c / 256;
    assert(d == v / 0x1_0000_0000);
    assert(le_bytes(v, 8) == seq![(v % 256) as u8] + le_bytes(a, 7));
    assert(le_bytes(a, 7) == seq![(a % 256) as u8] + le_bytes(b, 6));
    assert(le_bytes(b, 6) == seq![(b % 256) as u8] + le_bytes(c, 5));
    assert(le_bytes(c, 5) == seq![(c % 256) as u8] + le_bytes(d, 4));
    lemma_low_half(v);
    let low = le_bytes(v % 0x1_0000_0000, 4);
    assert(low == seq![(v % 256) as u8, (a % 256) as u8, (b % 256) as u8, (c % 256) as u8]);
    assert(le_bytes(v, 8) =~= low + le_bytes(d, 4));
}

proof fn lemma_low_half(v: nat)
    ensures
        le_bytes(v % 0x1_0000_0000, 4) == seq![
            (v % 256) as u8,
            (v / 256 % 256) as u8,
            (v / 256 / 256 % 256) as u8,
            (v / 256 / 256 / 256 % 256) as u8,
        ],
{
    let low = v % 0x1_0000_0000;
    let high = v / 0x1_0000_0000;
    assert(v == 0x1_0000_0000 * high + low);
    lemma_le_bytes_unfold(low);
    assert(v / 256 == 0x100_0000 * high + low / 256);
    assert(v / 256 / 256 == 0x1_0000 * high + low / 65536);
    assert(v / 256 / 256 / 256 == 0x100 * high + low / 16777216);
    assert(v % 256 == low % 256);
}

/// The eight wire bytes of `v`, least significant first.
pub fn u64_to_le(v: u64) -> (r: [u8; 8])
    ensures
        r@ == le_bytes(v as nat, 8),
{
    let low: u32 = (v % 0x1_0000_0000) as u32;
    let high: u32 = (v / 0x1_0000_0000) as u32;
    let l = u32_to_le(low);
    let h = u32_to_le(high);
    let r: [u8; 8] = [l[0], l[1], l[2], l[3], h[0], h[1], h[2], h[3]];
    proof {
        lemma_le_bytes_halves(v as nat);
        assert(r@ =~= le_bytes(low as nat, 4) + le_bytes(high as nat, 4));
    }
    r
}

/// The little-endian word at `bytes[at..at + 4]`.
pub fn u32_from_le(bytes: &[u8], at: usize) -> (r: u32)
    requires
        at + 4 <= bytes@.len(),
    ensures
        r == le_value(bytes@.subrange(at as int, at + 4)),
{
    proof {
        lemma_value_unfold(bytes@.subrange(at as int, at + 4));
    }
    bytes[at] as u32 + 256 * (bytes[at + 1] as u32) + 65536 * (bytes[at + 2] as u32) + 16777216 * (
    bytes[at + 3] as u32)
}

/// The big-endian word at `bytes[at..at + 4]`.
pub fn u32_from_be(bytes: &[u8], at: usize) -> (r: u32)
    requires
        at + 4 <= bytes@.len(),
    ensures
        r == be_value(bytes@.subrange(at as int, at + 4)),
{
    proof {
        lemma_value_unfold(bytes@.subrange(at as int, at + 4));
    }
    16777216 * (bytes[at] as u32) + 65536 * (bytes[at + 1] as u32) + 256 * (bytes[at + 2] as u32)
        + bytes[at + 3] as u32
}

/// The little-endian half word at `bytes[at..at + 2]`.
pub fn u16_from_le(bytes: &[u8], at: usize) -> (r: u16)
    requires
        at + 2 <= bytes@.len(),
    ensures
        r == le_value(bytes@.subrange(at as int, at + 2)),
{
    proof {
        lemma_value_unfold(bytes@.subrange(at as int, at + 2));
    }
    bytes[at] as u16 + 256 * (bytes[at + 1] as u16)
}

/// Byte `i` of the wire form of `v` is digit `i` of `v` in base 256.
pub proof fn lemma_le_bytes_digits(v: nat, n: nat, i: nat)
    requires
        i < n,
    ensures
        le_bytes(v, n).len() == n,
        le_bytes(v, n)[i as int] == v / (vstd::arithmetic::power::pow(256, i) as nat) % 256,
    decreases n,
{
    reveal(vstd::arithmetic::power::pow);
    lemma_le_bytes_len(v, n);
    lemma_le_bytes_len(v / 256, (n - 1) as nat);
    if i == 0 {
        assert(vstd::arithmetic::power::pow(256, 0) == 1);
        assert(v / 1 == v);
    } else {
        let p = vstd::arithmetic::power::pow(256, (i - 1) as nat);
        assert(vstd::arithmetic::power::pow(256, i) == 256 * p);
        vstd::arithmetic::power::lemma_pow_positive(256, (i - 1) as nat);
        lemma_le_bytes_digits(v / 256, (n - 1) as nat, (i - 1) as nat);
        vstd::arithmetic::div_mod::lemma_div_denominator(v as int, 256, p);
        assert(v as int / (256 * p) == v / 256 / (p as nat));
        assert((256 * p) as nat == 256 * (p as nat));
    }
}

/// A byte string spells the same number backwards in the other byte order.
pub proof fn lemma_be_is_le_reversed(s: Seq<u8>)
    ensures
        be_value(s) == le_value(s.reverse()),
    decreases s.len(),
{
    if s.len() > 0 {
        lemma_be_is_le_reversed(s.drop_last());
        assert(s.reverse().drop_first() =~= s.drop_last().reverse());
    }
}

} // verus!
