//! CRC-32 used by the Aura ASIC protocol.
//!
//! Reflected CRC-32/IEEE-802.3 style with polynomial `0xEDB88320`, initial
//! value `0xFFFFFFFF` and no final XOR. Applied to the frame bytes preceding
//! the trailing CRC word and transmitted little-endian.

use crate::wire::{le_bytes, lemma_le_bytes_unfold};
use vstd::prelude::*;

verus! {

/// Shift one bit out of the register, folding the polynomial in when the bit
/// shifted out is set.
pub open spec fn crc_bit(crc: u32) -> u32 {
    if crc & 1 == 1 {
        (crc >> 1) ^ 0xEDB8_8320
    } else {
        crc >> 1
    }
}

/// Shift `n` bits out of the register.
pub open spec fn crc_bits(crc: u32, n: nat) -> u32
    decreases n,
{
    if n == 0 {
        crc
    } else {
        crc_bit(crc_bits(crc, (n - 1) as nat))
    }
}

/// The register after `data` has been fed to it, least significant bit of
/// each byte first.
pub open spec fn crc_from(init: u32, data: Seq<u8>) -> u32
    decreases data.len(),
{
    if data.len() == 0 {
        init
    } else {
        crc_bits(crc_from(init, data.drop_last()) ^ (data.last() as u32), 8)
    }
}

/// The Aura CRC-32 of `data`.
pub open spec fn crc32(data: Seq<u8>) -> u32 {
    crc_from(0xFFFF_FFFF, data)
}

/// Aura CRC-32 over `data`.
///
/// Bitwise reflected CRC-32 with polynomial `0xEDB88320`, init `0xFFFFFFFF`,
/// xorout `0`. The result is written to the wire little-endian.
pub fn aura_crc32(data: &[u8]) -> (crc: u32)
    ensures
        crc == crc32(data@),
{
    let mut crc: u32 = 0xFFFF_FFFF;
    let mut i: usize = 0;
    assert(data@.take(0) =~= Seq::<u8>::empty());
    while i < data.len()
        invariant
            i <= data@.len(),
            crc == crc32(data@.take(i as int)),
        decreases data@.len() - i,
    {
        let ghost before = crc;
        crc = crc ^ (data[i] as u32);
        let ghost folded = crc;
        let mut bit: u8 = 0;
        while bit < 8
            invariant
                bit <= 8,
                crc == crc_bits(folded, bit as nat),
            decreases 8 - bit,
        {
            crc = if crc & 1 == 1 {
                (crc >> 1) ^ 0xEDB8_8320
            } else {
                crc >> 1
            };
            bit = bit + 1;
        }
        assert(data@.take(i + 1).drop_last() =~= data@.take(i as int));
        i = i + 1;
    }
    assert(data@.take(i as int) =~= data@);
    crc
}

/// Feeding `a` and then `b` is feeding their concatenation.
pub proof fn lemma_crc_concat(init: u32, a: Seq<u8>, b: Seq<u8>)
    ensures
        crc_from(init, a + b) == crc_from(crc_from(init, a), b),
    decreases b.len(),
{
    if b.len() == 0 {
        assert(a + b =~= a);
    } else {
        assert((a + b).drop_last() =~= a + b.drop_last());
        lemma_crc_concat(init, a, b.drop_last());
    }
}

proof fn lemma_crc_bit_injective(a: u32, b: u32)
    requires
        crc_bit(a) == crc_bit(b),
    ensures
        a == b,
{
    assert(a == b) by (bit_vector)
        requires
            (if a & 1 == 1 { (a >> 1) ^ 0xEDB8_8320u32 } else { a >> 1 })
                == (if b & 1 == 1 { (b >> 1) ^ 0xEDB8_8320u32 } else { b >> 1 }),
    ;
}

proof fn lemma_crc_bits_injective(a: u32, b: u32, n: nat)
    requires
        crc_bits(a, n) == crc_bits(b, n),
    ensures
        a == b,
    decreases n,
{
    if n > 0 {
        lemma_crc_bit_injective(crc_bits(a, (n - 1) as nat), crc_bits(b, (n - 1) as nat));
        lemma_crc_bits_injective(a, b, (n - 1) as nat);
    }
}

/// Two registers that differ stay different while the same bytes are fed.
pub proof fn lemma_crc_from_injective(a: u32, b: u32, data: Seq<u8>)
    requires
        crc_from(a, data) == crc_from(b, data),
    ensures
        a == b,
    decreases data.len(),
{
    if data.len() > 0 {
        let x = crc_from(a, data.drop_last());
        let y = crc_from(b, data.drop_last());
        let byte = data.last() as u32;
        lemma_crc_bits_injective(x ^ byte, y ^ byte, 8);
        assert(x == y) by (bit_vector)
            requires
                x ^ byte == y ^ byte,
        ;
        lemma_crc_from_injective(a, b, data.drop_last());
    }
}

/// Altering one byte always changes the CRC: a frame damaged in a single
/// byte never passes for an intact one.
pub proof fn lemma_single_byte_change_detected(data: Seq<u8>, at: int, byte: u8)
    requires
        0 <= at < data.len(),
        byte != data[at],
    ensures
        crc32(data.update(at, byte)) != crc32(data),
{
    let head = data.take(at);
    let tail = data.skip(at + 1);
    let good = head.push(data[at]);
    let bad = head.push(byte);
    assert(data =~= good + tail);
    assert(data.update(at, byte) =~= bad + tail);
    lemma_crc_concat(0xFFFF_FFFF, good, tail);
    lemma_crc_concat(0xFFFF_FFFF, bad, tail);
    assert(good.drop_last() =~= head && bad.drop_last() =~= head);
    if crc32(data.update(at, byte)) == crc32(data) {
        lemma_crc_from_injective(crc32(good), crc32(bad), tail);
        let c = crc32(head);
        let x = data[at] as u32;
        let y = byte as u32;
        lemma_crc_bits_injective(c ^ x, c ^ y, 8);
        assert(x == y) by (bit_vector)
            requires
                c ^ x == c ^ y,
        ;
    }
}

/// One shift of the register is division by the polynomial: it is linear, an
/// even register is halved, and a lone low bit becomes the polynomial.
pub proof fn lemma_crc_bit_divides(a: u32, b: u32)
    ensures
        crc_bit(a ^ b) == crc_bit(a) ^ crc_bit(b),
        crc_bit(1) == 0xEDB8_8320,
        a % 2 == 0 ==> crc_bit(a) == a / 2,
{
    assert((if (a ^ b) & 1 == 1 { ((a ^ b) >> 1) ^ 0xEDB8_8320u32 } else { (a ^ b) >> 1 }) == ((
    if a & 1 == 1 { (a >> 1) ^ 0xEDB8_8320u32 } else { a >> 1 }) ^ (
    if b & 1 == 1 { (b >> 1) ^ 0xEDB8_8320u32 } else { b >> 1 }))) by (bit_vector);
    assert(1u32 & 1 == 1 && (1u32 >> 1) ^ 0xEDB8_8320u32 == 0xEDB8_8320u32) by (bit_vector);
    assert(a % 2 == 0 ==> a & 1 == 0 && a >> 1 == a / 2) by (bit_vector);
}

/// Each byte is eight shifts: a register whose low byte is the byte fed to it
/// loses that byte and moves the others down.
pub proof fn lemma_crc_byte_cancels(crc: u32)
    ensures
        crc_from(crc, seq![(crc % 256) as u8]) == crc / 256,
{
    let byte = (crc % 256) as u8;
    let data = seq![byte];
    assert(data.drop_last() =~= Seq::empty());
    let x = crc ^ (byte as u32);
    assert(x & 1 == 0 && (x >> 1) & 1 == 0 && (x >> 2) & 1 == 0 && (x >> 3) & 1 == 0 && (x >> 4) & 1
        == 0 && (x >> 5) & 1 == 0 && (x >> 6) & 1 == 0 && (x >> 7) & 1 == 0 && x >> 8 == crc / 256)
        by (bit_vector)
        requires
            x == crc ^ (byte as u32),
            byte as u32 == crc % 256,
    ;
    assert(x >> 1 >> 1 == x >> 2 && x >> 2 >> 1 == x >> 3 && x >> 3 >> 1 == x >> 4 && x >> 4 >> 1
        == x >> 5 && x >> 5 >> 1 == x >> 6 && x >> 6 >> 1 == x >> 7 && x >> 7 >> 1 == x >> 8)
        by (bit_vector);
    assert(crc_bits(x, 8) == x >> 8) by {
        reveal_with_fuel(crc_bits, 9);
        assert(crc_bits(x, 1) == x >> 1);
        assert(crc_bits(x, 2) == x >> 2);
        assert(crc_bits(x, 3) == x >> 3);
        assert(crc_bits(x, 4) == x >> 4);
        assert(crc_bits(x, 5) == x >> 5);
        assert(crc_bits(x, 6) == x >> 6);
        assert(crc_bits(x, 7) == x >> 7);
    }
    reveal_with_fuel(crc_from, 2);
}

/// The residue of a sealed message is zero: any bytes followed by their CRC,
/// least significant byte first, leave the register empty.
pub proof fn lemma_crc_residue(data: Seq<u8>)
    ensures
        crc32(data + le_bytes(crc32(data) as nat, 4)) == 0,
        crc32(Seq::empty()) == 0xFFFF_FFFF,
{
    let c = crc32(data);
    lemma_le_bytes_unfold(c as nat);
    let tail = le_bytes(c as nat, 4);
    let b0 = (c % 256) as u8;
    let c1 = c / 256;
    let b1 = (c1 % 256) as u8;
    let c2 = c1 / 256;
    let b2 = (c2 % 256) as u8;
    let c3 = c2 / 256;
    let b3 = (c3 % 256) as u8;
    assert(tail =~= seq![b0] + (seq![b1] + (seq![b2] + seq![b3])));
    lemma_crc_concat(0xFFFF_FFFF, data, tail);
    lemma_crc_concat(c, seq![b0], seq![b1] + (seq![b2] + seq![b3]));
    lemma_crc_concat(c1, seq![b1], seq![b2] + seq![b3]);
    lemma_crc_concat(c2, seq![b2], seq![b3]);
    lemma_crc_byte_cancels(c);
    lemma_crc_byte_cancels(c1);
    lemma_crc_byte_cancels(c2);
    lemma_crc_byte_cancels(c3);
}

proof fn lemma_crc_bits_linear(a: u32, b: u32, n: nat)
    ensures
        crc_bits(a ^ b, n) == crc_bits(a, n) ^ crc_bits(b, n),
    decreases n,
{
    if n > 0 {
        lemma_crc_bits_linear(a, b, (n - 1) as nat);
        lemma_crc_bit_divides(crc_bits(a, (n - 1) as nat), crc_bits(b, (n - 1) as nat));
    }
}

proof fn lemma_crc_first_bit(crc: u32, n: nat)
    ensures
        crc_bits(crc_bit(crc), n) == crc_bit(crc_bits(crc, n)),
    decreases n,
{
    if n > 0 {
        lemma_crc_first_bit(crc, (n - 1) as nat);
    }
}

proof fn lemma_crc_one_byte(crc: u32, byte: u8)
    ensures
        crc_from(crc, seq![byte]) == crc_bits(crc ^ (byte as u32), 8),
{
    assert(seq![byte].drop_last() =~= Seq::empty());
    reveal_with_fuel(crc_from, 2);
}

/// Feeding a byte is linear in the register and the byte.
pub proof fn lemma_crc_is_linear(a: u32, b: u32, x: u8, y: u8)
    ensures
        crc_from(a ^ b, seq![x ^ y]) == crc_from(a, seq![x]) ^ crc_from(b, seq![y]),
{
    lemma_crc_one_byte(a ^ b, x ^ y);
    lemma_crc_one_byte(a, x);
    lemma_crc_one_byte(b, y);
    assert((a ^ b) ^ ((x ^ y) as u32) == (a ^ (x as u32)) ^ (b ^ (y as u32))) by (bit_vector);
    lemma_crc_bits_linear(a ^ (x as u32), b ^ (y as u32), 8);
}

/// What single bits leave in an empty register: the highest bit of a byte
/// leaves the polynomial, and each lower one what the next higher one leaves,
/// shifted once more.
pub proof fn lemma_crc_of_single_bits(x: u8)
    ensures
        crc_from(0, seq![0x80u8]) == 0xEDB8_8320,
        x % 2 == 0 ==> crc_from(0, seq![(x / 2) as u8]) == crc_bit(crc_from(0, seq![x])),
{
    lemma_crc_byte_cancels(0x80);
    lemma_crc_one_byte(0, 0x80);
    assert(0u32 ^ 0x80u32 == 0x80u32) by (bit_vector);
    assert(crc_bits(0x80, 8) == 0xEDB8_8320) by {
        lemma_crc_bit_divides(0x80, 0);
        lemma_crc_bit_divides(0x40, 0);
        lemma_crc_bit_divides(0x20, 0);
        lemma_crc_bit_divides(0x10, 0);
        lemma_crc_bit_divides(8, 0);
        lemma_crc_bit_divides(4, 0);
        lemma_crc_bit_divides(2, 0);
        reveal_with_fuel(crc_bits, 9);
    }
    if x % 2 == 0 {
        let half = (x / 2) as u8;
        lemma_crc_one_byte(0, half);
        lemma_crc_one_byte(0, x);
        assert(0u32 ^ (x as u32) == x as u32 && 0u32 ^ (half as u32) == half as u32)
            by (bit_vector);
        lemma_crc_bit_divides(x as u32, 0);
        assert(crc_bit(x as u32) == half as u32);
        lemma_crc_first_bit(x as u32, 8);
    }
}

} // verus!
