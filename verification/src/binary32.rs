//! IEEE-754 binary32 values held as their bit patterns (`f32::to_bits`).
//!
//! Confidences and evidence regions are single-precision numbers in the
//! design-spec model. The library keeps their exact bit patterns and
//! decides everything it needs about them on the bits: whether a value is a
//! finite number in `[0, 1]`, how two such values are ordered, how a value is
//! printed with two decimals, and whether a single-precision sum stays at or
//! below `1.0`.

use vstd::prelude::*;
use vstd::arithmetic::power2::*;
use crate::text::{decimal, digit_char, push_char, push_decimal};

verus! {

/// Biased exponent field.
pub open spec fn exponent_field(bits: u32) -> int {
    (bits as int / 0x80_0000) % 256
}

/// Fraction field.
pub open spec fn fraction_field(bits: u32) -> int {
    bits as int % 0x80_0000
}

/// Sign bit.
pub open spec fn sign_bit(bits: u32) -> int {
    bits as int / 0x8000_0000
}

/// The value is a finite number in `[0, 1]` (`-0.0` included, as `0.0 <= -0.0`
/// holds): finite exponent, non-negative unless zero, and below `1.0` unless
/// exactly `1.0`.
pub open spec fn in_unit_interval(bits: u32) -> bool {
    &&& exponent_field(bits) != 255
    &&& (sign_bit(bits) == 0 || (exponent_field(bits) == 0 && fraction_field(bits) == 0))
    &&& (exponent_field(bits) < 127 || (exponent_field(bits) == 127 && fraction_field(bits) == 0))
}

/// Significand as an integer: the value is `significand / 2^scale_shift`
/// (up to sign).
pub open spec fn significand(bits: u32) -> int {
    if exponent_field(bits) == 0 {
        fraction_field(bits)
    } else {
        fraction_field(bits) + 0x80_0000
    }
}

/// Power of two dividing the significand.
pub open spec fn scale_shift(bits: u32) -> int {
    if exponent_field(bits) == 0 {
        149
    } else {
        150 - exponent_field(bits)
    }
}

/// Ordering rank of a value in `[0, 1]`: values compare as their ranks do
/// (`-0.0` ranks as `0.0`).
pub open spec fn unit_rank(bits: u32) -> u32 {
    if bits == 0x8000_0000 {
        0
    } else {
        bits
    }
}

/// `n / d` rounded to the nearest integer, ties to even.
pub open spec fn div_round_half_even(n: int, d: int) -> int {
    let q = n / d;
    let r = n % d;
    if 2 * r < d {
        q
    } else if 2 * r > d {
        q + 1
    } else if q % 2 == 0 {
        q
    } else {
        q + 1
    }
}

/// A value in `[0, 1]` times 100, rounded to the nearest integer, ties to
/// even.
pub open spec fn hundredths(bits: u32) -> int {
    div_round_half_even(significand(bits) * 100, pow2(scale_shift(bits) as nat) as int)
}

/// A value in `[0, 1]` written with two decimals, as `format!("{:.2}", v)`
/// writes it (a minus sign for `-0.0`).
pub open spec fn two_decimals(bits: u32) -> Seq<char> {
    let h = hundredths(bits);
    (if sign_bit(bits) == 1 { seq!['-'] } else { Seq::empty() }) + decimal((h / 100) as nat)
        + seq!['.', digit_char((h % 100) / 10), digit_char(h % 10)]
}

/// The value times `2^149`, an integer for every value in `[0, 1]`.
pub open spec fn scaled_149(bits: u32) -> int {
    significand(bits) * pow2((149 - scale_shift(bits)) as nat)
}

/// The single-precision sum of two values in `[0, 1]` is at most `1.0`:
/// the exact sum is at most `1 + 2^-24`, the midpoint between `1.0` and the
/// next binary32 number, which round-to-nearest-even sends to `1.0`.
pub open spec fn sum_at_most_one(a: u32, b: u32) -> bool {
    scaled_149(a) + scaled_149(b) <= pow2(149) + pow2(125)
}

/// Tests whether the value is a finite number in `[0, 1]`.
pub fn is_in_unit_interval(bits: u32) -> (r: bool)
    ensures
        r == in_unit_interval(bits),
{
    let e = (bits / 0x80_0000) % 256;
    let f = bits % 0x80_0000;
    let s = bits / 0x8000_0000;
    e != 255 && (s == 0 || (e == 0 && f == 0)) && (e < 127 || (e == 127 && f == 0))
}

/// Ordering rank of a value in `[0, 1]`.
pub fn rank_of(bits: u32) -> (r: u32)
    ensures
        r == unit_rank(bits),
{
    if bits == 0x8000_0000 {
        0
    } else {
        bits
    }
}

/// `2^e` for small `e`.
fn pow2_u64(e: u32) -> (r: u64)
    requires
        e < 64,
    ensures
        r as int == pow2(e as nat),
{
    let mut r: u64 = 1;
    let mut i: u32 = 0;
    proof {
        lemma2_to64();
    }
    while i < e
        invariant
            i <= e < 64,
            r as int == pow2(i as nat),
        decreases e - i,
    {
        proof {
            lemma_pow2_unfold((i + 1) as nat);
            lemma_pow2_strictly_increases((i + 1) as nat, 64);
            lemma2_to64_rest();
        }
        r = r * 2;
        i = i + 1;
    }
    r
}

proof fn lemma_significand_bound(bits: u32)
    ensures
        0 <= significand(bits) < 0x100_0000,
        exponent_field(bits) == 0 ==> significand(bits) < 0x80_0000,
        0 <= exponent_field(bits) < 256,
{
}

/// The value of a number in `[0, 1]` times 100, rounded half to even.
fn hundredths_of(bits: u32) -> (h: u64)
    requires
        in_unit_interval(bits),
    ensures
        h as int == hundredths(bits),
        h <= 100,
{
    proof {
        lemma_significand_bound(bits);
        lemma2_to64();
        lemma2_to64_rest();
    }
    let e = (bits / 0x80_0000) % 256;
    let f = (bits % 0x80_0000) as u64;
    let m: u64 = if e == 0 {
        f
    } else {
        f + 0x80_0000
    };
    let shift: u32 = if e == 0 {
        149
    } else {
        150 - e
    };
    let n: u64 = m * 100;
    assert(n as int == significand(bits) * 100);
    assert(shift as int == scale_shift(bits));
    if shift >= 64 {
        proof {
            lemma_pow2_strictly_increases(32, shift as nat);
            assert(pow2(32) == 0x1_0000_0000);
            let d = pow2(shift as nat) as int;
            assert(n < 0x8000_0000);
            assert(2 * n < d);
            vstd::arithmetic::div_mod::lemma_basic_div(n as int, d);
            vstd::arithmetic::div_mod::lemma_small_mod(n as nat, d as nat);
        }
        return 0;
    }
    let d = pow2_u64(shift);
    let q = n / d;
    let r = n % d;
    let q2: u64 = if 2 * (r as u128) < d as u128 {
        q
    } else if 2 * (r as u128) > d as u128 {
        q + 1
    } else if q % 2 == 0 {
        q
    } else {
        q + 1
    };
    proof {
        // The value is at most one, so the rounded hundredths are at most 100.
        if e == 127 {
            assert(m == 0x80_0000);
            assert(d == 0x80_0000);
            assert(n == 100 * 0x80_0000);
            assert(q == 100) by (nonlinear_arith)
                requires
                    q == n / d,
                    n == 100 * 0x80_0000,
                    d == 0x80_0000,
            ;
            assert(r == 0) by (nonlinear_arith)
                requires
                    r == n % d,
                    n == 100 * 0x80_0000,
                    d == 0x80_0000,
            ;
        } else {
            assert(shift >= 24);
            lemma_pow2_increases_le(24, shift as nat);
            assert(d >= 0x100_0000);
            assert(m < 0x100_0000);
            assert(q <= 99) by (nonlinear_arith)
                requires
                    q == n / d,
                    n == m * 100,
                    m < 0x100_0000,
                    d >= 0x100_0000,
            ;
        }
    }
    q2
}

proof fn lemma_pow2_increases_le(a: nat, b: nat)
    requires
        a <= b,
    ensures
        pow2(a) <= pow2(b),
{
    if a < b {
        lemma_pow2_strictly_increases(a, b);
    }
}

/// Appends the value, written with two decimals.
pub fn push_two_decimals(out: &mut String, bits: u32)
    requires
        in_unit_interval(bits),
    ensures
        final(out)@ == old(out)@ + two_decimals(bits),
{
    let h = hundredths_of(bits);
    let ghost before = out@;
    if bits / 0x8000_0000 == 1 {
        push_char(out, '-');
    }
    let ghost signed = out@;
    push_decimal(out, h / 100);
    push_char(out, '.');
    let tens = ((h % 100) / 10) as u8;
    let ones = (h % 10) as u8;
    push_char(out, (tens + 48) as char);
    push_char(out, (ones + 48) as char);
    assert(digit_char(((h % 100) / 10) as int) == (tens + 48) as char);
    assert(digit_char((h % 10) as int) == (ones + 48) as char);
    let ghost sign_part: Seq<char> = if sign_bit(bits) == 1 { seq!['-'] } else { Seq::empty() };
    assert(signed == before + sign_part);
    assert(out@ =~= before + two_decimals(bits));
}

proof fn lemma_scaled_bound(bits: u32)
    requires
        in_unit_interval(bits),
    ensures
        0 <= scaled_149(bits) <= pow2(149),
        scale_shift(bits) > 47 ==> scaled_149(bits) < pow2(125),
        23 <= scale_shift(bits) <= 149,
{
    lemma_significand_bound(bits);
    let s = scale_shift(bits);
    let m = significand(bits);
    let k = (149 - s) as nat;
    lemma_pow2_pos(k);
    assert(0 <= m * pow2(k)) by (nonlinear_arith)
        requires
            0 <= m,
            pow2(k) > 0,
    ;
    if exponent_field(bits) == 127 {
        assert(m == 0x80_0000);
        lemma_pow2_adds(23, 126);
        lemma2_to64();
        assert(scaled_149(bits) == pow2(149));
    } else {
        assert(s >= 24);
        assert(m < 0x100_0000);
        lemma2_to64();
        lemma_pow2_adds(24, k);
        lemma_pow2_increases_le(24 + k, 149);
        assert(m * pow2(k) < 0x100_0000 * pow2(k)) by (nonlinear_arith)
            requires
                m < 0x100_0000,
                pow2(k) > 0,
        ;
        if s > 47 {
            lemma_pow2_increases_le(24 + k, 125);
        }
    }
}

/// Tests whether the single-precision sum of two values in `[0, 1]` is at
/// most `1.0`.
pub fn sum_within_one(a: u32, b: u32) -> (r: bool)
    requires
        in_unit_interval(a),
        in_unit_interval(b),
    ensures
        r == sum_at_most_one(a, b),
{
    proof {
        lemma_scaled_bound(a);
        lemma_scaled_bound(b);
        lemma_pow2_pos(125);
    }
    let ea = (a / 0x80_0000) % 256;
    let eb = (b / 0x80_0000) % 256;
    let sa: u32 = if ea == 0 {
        149
    } else {
        150 - ea
    };
    let sb: u32 = if eb == 0 {
        149
    } else {
        150 - eb
    };
    if sa > 47 || sb > 47 {
        return true;
    }
    let ma: u64 = if ea == 0 {
        (a % 0x80_0000) as u64
    } else {
        (a % 0x80_0000) as u64 + 0x80_0000
    };
    let mb: u64 = if eb == 0 {
        (b % 0x80_0000) as u64
    } else {
        (b % 0x80_0000) as u64 + 0x80_0000
    };
    proof {
        lemma_significand_bound(a);
        lemma_significand_bound(b);
    }
    let pa = pow2_u64(47 - sa);
    let pb = pow2_u64(47 - sb);
    proof {
        lemma2_to64();
        lemma_pow2_increases_le((47 - sa) as nat, 24);
        lemma_pow2_increases_le((47 - sb) as nat, 24);
    }
    assert(ma * pa < 0x1_0000_0000_0000) by (nonlinear_arith)
        requires
            ma < 0x100_0000,
            pa <= 0x100_0000,
    ;
    assert(mb * pb < 0x1_0000_0000_0000) by (nonlinear_arith)
        requires
            mb < 0x100_0000,
            pb <= 0x100_0000,
    ;
    let xa = ma * pa;
    let xb = mb * pb;
    proof {
        let ka = (47 - sa) as nat;
        let kb = (47 - sb) as nat;
        lemma_pow2_adds(ka, 102);
        lemma_pow2_adds(kb, 102);
        lemma_pow2_adds(47, 102);
        lemma_pow2_adds(23, 102);
        let p102 = pow2(102) as int;
        lemma_pow2_pos(102);
        assert(scaled_149(a) == xa * p102) by (nonlinear_arith)
            requires
                scaled_149(a) == ma * pow2((ka + 102) as nat),
                pow2((ka + 102) as nat) == pa * p102,
                xa == ma * pa,
        ;
        assert(scaled_149(b) == xb * p102) by (nonlinear_arith)
            requires
                scaled_149(b) == mb * pow2((kb + 102) as nat),
                pow2((kb + 102) as nat) == pb * p102,
                xb == mb * pb,
        ;
        assert(pow2(47) == 0x8000_0000_0000) by {
            lemma2_to64_rest();
        }
        assert(pow2(23) == 0x80_0000);
        assert((xa + xb <= 0x8000_0000_0000 + 0x80_0000) == (xa * p102 + xb * p102 <= (
        0x8000_0000_0000 + 0x80_0000) * p102)) by (nonlinear_arith)
            requires
                p102 > 0,
        ;
        assert(pow2(149) + pow2(125) == (0x8000_0000_0000 + 0x80_0000) * p102) by (
        nonlinear_arith)
            requires
                pow2(149) == pow2(47) * p102,
                pow2(125) == pow2(23) * p102,
                pow2(47) == 0x8000_0000_0000,
                pow2(23) == 0x80_0000,
        ;
    }
    xa + xb <= 0x8000_0000_0000 + 0x80_0000
}

} // verus!
