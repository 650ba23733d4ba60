//! Bit-granular reads, most significant bit first.
use vstd::prelude::*;
use bitreader::BitReader;

verus! {

/// Two to the power `e`.
pub open spec fn spec_pow2(e: nat) -> nat
    decreases e,
{
    if e == 0 {
        1
    } else {
        2 * spec_pow2((e - 1) as nat)
    }
}

/// Bit number `i` of `s`, counted from the most significant bit of `s[0]`;
/// zero past the end of `s`.
pub open spec fn spec_bit(s: Seq<u8>, i: int) -> nat {
    if 0 <= i < 8 * s.len() {
        ((s[i / 8] as nat) / spec_pow2((7 - i % 8) as nat)) % 2
    } else {
        0
    }
}

/// The unsigned integer written by the `count` bits of `s` that start at bit
/// `pos`, most significant first. Bits past the end of `s` read as zero.
pub open spec fn spec_bits(s: Seq<u8>, pos: int, count: nat) -> nat
    decreases count,
{
    if count == 0 {
        0
    } else {
        2 * spec_bits(s, pos, (count - 1) as nat) + spec_bit(s, pos + count - 1)
    }
}

/// `BitReader::skip` followed by `BitReader::read_u64`: the `count` bits of
/// `bytes` that start at bit `pos`, as an unsigned integer, or nothing when
/// they do not all lie inside `bytes`.
#[verifier::external_body]
pub(crate) fn read_bits(bytes: &[u8], pos: u64, count: u8) -> (r: Option<u64>)
    requires
        count <= 64,
        bytes@.len() * 8 <= u64::MAX,
        pos <= bytes@.len() * 8,
    ensures
        r == (if pos + count <= bytes@.len() * 8 {
            Some(spec_bits(bytes@, pos as int, count as nat) as u64)
        } else {
            None
        }),
{
    let mut reader = BitReader::new(bytes);
    reader.skip(pos).ok()?;
    reader.read_u64(count).ok()
}

/// A run of `count` bits is less than two to the power `count`.
pub proof fn lemma_bits_bound(s: Seq<u8>, pos: int, count: nat)
    ensures
        spec_bits(s, pos, count) < spec_pow2(count),
    decreases count,
{
    if count > 0 {
        lemma_bits_bound(s, pos, (count - 1) as nat);
    }
}

/// Powers of two grow with the exponent, and are at least 1.
pub proof fn lemma_pow2_grows(a: nat, b: nat)
    requires
        a <= b,
    ensures
        1 <= spec_pow2(a) <= spec_pow2(b),
    decreases b,
{
    if a < b {
        lemma_pow2_grows(a, (b - 1) as nat);
    } else if a > 0 {
        lemma_pow2_grows((a - 1) as nat, (a - 1) as nat);
    }
}

/// The powers of two that the field widths of this format need.
pub proof fn lemma_pow2_values()
    ensures
        spec_pow2(0) == 1,
        spec_pow2(1) == 2,
        spec_pow2(2) == 4,
        spec_pow2(3) == 8,
        spec_pow2(4) == 16,
        spec_pow2(5) == 32,
        spec_pow2(7) == 128,
        spec_pow2(8) == 256,
        spec_pow2(12) == 4096,
        spec_pow2(16) == 65536,
        spec_pow2(32) == 0x1_0000_0000,
        spec_pow2(64) == 0x1_0000_0000_0000_0000,
{
    reveal_with_fuel(spec_pow2, 65);
}

} // verus!
