//! From a colour to the three numbers that are written for a pixel.
//!
//! A channel is clamped to `[0, 0.999]`, multiplied by 256 and cut off to an
//! integer, which lies in `0..=255`. For a scalar `x = (2^52 + f) * 2^(e -
//! 1075)` with exponent field `e` and fraction field `f`, the product `256 x`
//! is `(2^52 + f) / 2^(1067 - e)`. Below the exponent field of `1/256` its
//! integer part is zero, so subnormal scalars need no case of their own.

use crate::units::scalar::Scalar;
use crate::units::vec3::Vec3;
use vstd::prelude::*;

verus! {

/// A colour, or a multiplier per channel: red, green and blue.
pub type Color = Vec3;

/// Key of `0.999`, the largest value of a channel that is written.
pub const CHANNEL_MAX_KEY: i64 = 0x3FEF_F7CE_D916_872B;

/// The number of fraction patterns per exponent: `2^52`.
pub const FRACTION_SPAN: u64 = 0x10_0000_0000_0000;

/// The number of fraction patterns that share their top seven bits: `2^45`.
pub const TOP_BITS_SPAN: u64 = 0x2000_0000_0000;

/// The exponent field of `1/256`, the smallest scalar with a level above zero.
pub const FIRST_LEVEL_EXPONENT: u64 = 1015;

/// The exponent field of the scalars in `[1/2, 1)`.
pub const LAST_LEVEL_EXPONENT: u64 = 1022;

/// `x` held to the range from `min` to `max`.
pub open spec fn clamped(x: int, min: int, max: int) -> int {
    if x < min {
        min
    } else if x > max {
        max
    } else {
        x
    }
}

/// Two to the power `n`.
pub open spec fn two_to(n: nat) -> nat
    decreases n,
{
    if n == 0 {
        1
    } else {
        2 * two_to((n - 1) as nat)
    }
}

/// The integer part of `256 x` for the scalar `x` with key `key`, where `x`
/// lies in `[0, 1)`: the fraction with its leading one, cut down to eight bits
/// and then by one more bit for every octave that `x` lies below `[1/2, 1)`.
pub open spec fn level_of(key: int) -> int {
    let e = key / (FRACTION_SPAN as int);
    let f = key % (FRACTION_SPAN as int);
    if e < FIRST_LEVEL_EXPONENT {
        0
    } else {
        ((FRACTION_SPAN + f) / (TOP_BITS_SPAN as int)) / (two_to((LAST_LEVEL_EXPONENT - e) as nat) as int)
    }
}

/// The number of doublings that fit into `n`, for `n` from 1 to 256.
pub open spec fn octave(n: int) -> nat {
    if n < 2 {
        0
    } else if n < 4 {
        1
    } else if n < 8 {
        2
    } else if n < 16 {
        3
    } else if n < 32 {
        4
    } else if n < 64 {
        5
    } else if n < 128 {
        6
    } else if n < 256 {
        7
    } else {
        8
    }
}

/// The key of `n / 256`, for `n` from 0 to 256. With `k = octave(n)` the
/// scalar is `(n / 2^k) * 2^(k - 8)`: its exponent field is `1015 + k` and
/// its fraction field holds the bits of `n` below the leading one, at the top.
pub open spec fn edge_key(n: int) -> int {
    if n <= 0 {
        0
    } else {
        (FIRST_LEVEL_EXPONENT + octave(n)) * FRACTION_SPAN + (n - two_to(octave(n))) * two_to(
            (52 - octave(n)) as nat,
        )
    }
}

/// The bytes of `n` written in decimal, without leading zeros.
pub open spec fn decimal(n: nat) -> Seq<u8>
    decreases n,
{
    if n < 10 {
        seq![(48 + n) as u8]
    } else {
        decimal(n / 10).push((48 + n % 10) as u8)
    }
}

/// The line of a pixel: its three levels in decimal, separated by one space
/// and ended by a line feed.
pub open spec fn pixel_line(red: nat, green: nat, blue: nat) -> Seq<u8> {
    decimal(red) + seq![32u8] + decimal(green) + seq![32u8] + decimal(blue) + seq![10u8]
}

/// `x` if it lies between `min` and `max`, else the bound it has passed.
pub fn clamp(x: Scalar, min: Scalar, max: Scalar) -> (r: Scalar)
    ensures
        r@ == clamped(x@, min@, max@),
        r == x || r == min || r == max,
{
    if x.lt(&min) {
        min
    } else if max.lt(&x) {
        max
    } else {
        x
    }
}

/// The eight-bit level of a channel: the channel is clamped to `[0, 0.999]`,
/// and the level is the integer part of 256 times that, the `n` with
/// `n / 256 <= x < (n + 1) / 256`.
pub fn quantize(channel: Scalar) -> (level: u8)
    ensures
        level == level_of(clamped(channel@, 0, CHANNEL_MAX_KEY as int)),
{
    let k: i64 = channel.key();
    let key: u64 = if k < 0 {
        0
    } else if k > CHANNEL_MAX_KEY {
        CHANNEL_MAX_KEY as u64
    } else {
        k as u64
    };
    let e: u64 = key / FRACTION_SPAN;
    let f: u64 = key % FRACTION_SPAN;
    if e < FIRST_LEVEL_EXPONENT {
        return 0;
    }
    // The key is at most that of `0.999`, so the scalar is below one.
    assert(e <= LAST_LEVEL_EXPONENT);
    let top: u64 = (FRACTION_SPAN + f) / TOP_BITS_SPAN;
    assert(128 <= top < 256);
    let steps: u64 = LAST_LEVEL_EXPONENT - e;
    let mut divisor: u64 = 1;
    let mut i: u64 = 0;
    while i < steps
        invariant
            i <= steps <= 7,
            divisor == two_to(i as nat),
            1 <= divisor <= 128,
        decreases steps - i,
    {
        proof {
            lemma_two_to_values();
            lemma_two_to_below((i + 1) as nat, 7);
        }
        divisor = divisor * 2;
        i = i + 1;
    }
    let level: u64 = top / divisor;
    level as u8
}

/// Powers of two grow with the exponent.
pub proof fn lemma_two_to_below(n: nat, m: nat)
    requires
        n <= m,
    ensures
        1 <= two_to(n) <= two_to(m),
        n < m ==> 2 * two_to(n) <= two_to(m),
    decreases m,
{
    if n < m {
        lemma_two_to_below(n, (m - 1) as nat);
    } else if n > 0 {
        lemma_two_to_below((n - 1) as nat, (m - 1) as nat);
    }
}

/// The values of the powers of two that the levels need.
proof fn lemma_two_to_values()
    ensures
        two_to(0) == 1,
        two_to(1) == 2,
        two_to(2) == 4,
        two_to(3) == 8,
        two_to(4) == 16,
        two_to(5) == 32,
        two_to(6) == 64,
        two_to(7) == 128,
        two_to(8) == 256,
        two_to(44) == 0x1000_0000_0000,
        two_to(45) == 0x2000_0000_0000,
        two_to(46) == 0x4000_0000_0000,
        two_to(47) == 0x8000_0000_0000,
        two_to(48) == 0x1_0000_0000_0000,
        two_to(49) == 0x2_0000_0000_0000,
        two_to(50) == 0x4_0000_0000_0000,
        two_to(51) == 0x8_0000_0000_0000,
        two_to(52) == 0x10_0000_0000_0000,
{
    reveal_with_fuel(two_to, 9);
    assert(two_to(8) == 256);
    assert(two_to(16) == 0x1_0000);
    assert(two_to(24) == 0x100_0000);
    assert(two_to(32) == 0x1_0000_0000);
    assert(two_to(40) == 0x100_0000_0000);
    assert(two_to(44) == 0x1000_0000_0000);
    assert(two_to(52) == 0x10_0000_0000_0000);
}

/// The level of the key with exponent field `e` and fraction field `f`,
/// where `d` is two to the power `1022 - e`.
proof fn lemma_level_by_fields(key: int, e: int, f: int, d: int)
    requires
        key == e * 0x10_0000_0000_0000 + f,
        0 <= f < 0x10_0000_0000_0000,
        FIRST_LEVEL_EXPONENT <= e <= LAST_LEVEL_EXPONENT,
        d == two_to((LAST_LEVEL_EXPONENT - e) as nat),
    ensures
        level_of(key) == ((0x10_0000_0000_0000 + f) / 0x2000_0000_0000) / d,
{
    assert(key / 0x10_0000_0000_0000 == e);
    assert(key % 0x10_0000_0000_0000 == f);
}

/// The key of `n / 256` in the octave `k` of `n`, written out.
proof fn lemma_edge_by_octave(n: int, k: nat, low: int, step: int)
    requires
        1 <= n <= 256,
        k == octave(n),
        low == two_to(k),
        step == two_to((52 - k) as nat),
    ensures
        edge_key(n) == (1015 + k) * 0x10_0000_0000_0000 + (n - low) * step,
{
    assert((FIRST_LEVEL_EXPONENT + k) * FRACTION_SPAN == (1015 + k) * 0x10_0000_0000_0000);
}

/// At the key of `n / 256` the level is `n`, and one key below it the level
/// is still `n - 1`.
pub proof fn lemma_level_steps_at_edge(n: int)
    requires
        1 <= n <= 255,
    ensures
        0 < edge_key(n) <= CHANNEL_MAX_KEY,
        level_of(edge_key(n)) == n,
        level_of(edge_key(n) - 1) == n - 1,
{
    lemma_two_to_values();
    let k = octave(n);
    let edge = edge_key(n);
    if k == 0 {
        assert(n == 1);
        lemma_edge_by_octave(n, 0, 1, 0x10_0000_0000_0000);
        assert(edge == 1015 * 0x10_0000_0000_0000 + (n - 1) * 0x10_0000_0000_0000);
        assert(edge == 1015 * 0x10_0000_0000_0000);
        lemma_level_by_fields(edge, 1015, 0, 128);
        assert((edge - 1) / 0x10_0000_0000_0000 == 1014);
    } else if k == 1 {
        lemma_edge_by_octave(n, 1, 2, 0x8_0000_0000_0000);
        let f = (n - 2) * 0x8_0000_0000_0000;
        lemma_level_by_fields(edge, 1016, f, 64);
        if n == 2 {
            lemma_level_by_fields(edge - 1, 1015, 0xF_FFFF_FFFF_FFFF, 128);
        } else {
            lemma_level_by_fields(edge - 1, 1016, f - 1, 64);
        }
    } else if k == 2 {
        lemma_edge_by_octave(n, 2, 4, 0x4_0000_0000_0000);
        let f = (n - 4) * 0x4_0000_0000_0000;
        lemma_level_by_fields(edge, 1017, f, 32);
        if n == 4 {
            lemma_level_by_fields(edge - 1, 1016, 0xF_FFFF_FFFF_FFFF, 64);
        } else {
            lemma_level_by_fields(edge - 1, 1017, f - 1, 32);
        }
    } else if k == 3 {
        lemma_edge_by_octave(n, 3, 8, 0x2_0000_0000_0000);
        let f = (n - 8) * 0x2_0000_0000_0000;
        lemma_level_by_fields(edge, 1018, f, 16);
        if n == 8 {
            lemma_level_by_fields(edge - 1, 1017, 0xF_FFFF_FFFF_FFFF, 32);
        } else {
            lemma_level_by_fields(edge - 1, 1018, f - 1, 16);
        }
    } else if k == 4 {
        lemma_edge_by_octave(n, 4, 16, 0x1_0000_0000_0000);
        let f = (n - 16) * 0x1_0000_0000_0000;
        lemma_level_by_fields(edge, 1019, f, 8);
        if n == 16 {
            lemma_level_by_fields(edge - 1, 1018, 0xF_FFFF_FFFF_FFFF, 16);
        } else {
            lemma_level_by_fields(edge - 1, 1019, f - 1, 8);
        }
    } else if k == 5 {
        lemma_edge_by_octave(n, 5, 32, 0x8000_0000_0000);
        let f = (n - 32) * 0x8000_0000_0000;
        lemma_level_by_fields(edge, 1020, f, 4);
        if n == 32 {
            lemma_level_by_fields(edge - 1, 1019, 0xF_FFFF_FFFF_FFFF, 8);
        } else {
            lemma_level_by_fields(edge - 1, 1020, f - 1, 4);
        }
    } else if k == 6 {
        lemma_edge_by_octave(n, 6, 64, 0x4000_0000_0000);
        let f = (n - 64) * 0x4000_0000_0000;
        lemma_level_by_fields(edge, 1021, f, 2);
        if n == 64 {
            lemma_level_by_fields(edge - 1, 1020, 0xF_FFFF_FFFF_FFFF, 4);
        } else {
            lemma_level_by_fields(edge - 1, 1021, f - 1, 2);
        }
    } else {
        lemma_edge_by_octave(n, 7, 128, 0x2000_0000_0000);
        let f = (n - 128) * 0x2000_0000_0000;
        lemma_level_by_fields(edge, 1022, f, 1);
        if n == 128 {
            lemma_level_by_fields(edge - 1, 1021, 0xF_FFFF_FFFF_FFFF, 2);
        } else {
            lemma_level_by_fields(edge - 1, 1022, f - 1, 1);
        }
    }
}

/// The levels of the keys with one exponent field fill one octave: the keys
/// below the exponent field of `1/256` have level zero, and those with the
/// exponent field `1015 + j` have a level from `2^j` up to `2^(j+1) - 1`.
pub proof fn lemma_level_range(key: int)
    requires
        0 <= key <= CHANNEL_MAX_KEY,
    ensures
        0 <= level_of(key) <= 255,
        key / (FRACTION_SPAN as int) < FIRST_LEVEL_EXPONENT ==> level_of(key) == 0,
        key / (FRACTION_SPAN as int) >= FIRST_LEVEL_EXPONENT ==> two_to(
            (key / (FRACTION_SPAN as int) - FIRST_LEVEL_EXPONENT) as nat,
        ) <= level_of(key) < 2 * two_to(
            (key / (FRACTION_SPAN as int) - FIRST_LEVEL_EXPONENT) as nat,
        ),
{
    lemma_two_to_values();
    let e = key / 0x10_0000_0000_0000;
    let f = key % 0x10_0000_0000_0000;
    let top = (0x10_0000_0000_0000 + f) / 0x2000_0000_0000;
    assert(e <= 1022);
    assert(128 <= top <= 255);
    if e == 1015 {
        lemma_level_by_fields(key, 1015, f, 128);
        assert(level_of(key) == top / 128);
    } else if e == 1016 {
        lemma_level_by_fields(key, 1016, f, 64);
        assert(level_of(key) == top / 64);
    } else if e == 1017 {
        lemma_level_by_fields(key, 1017, f, 32);
        assert(level_of(key) == top / 32);
    } else if e == 1018 {
        lemma_level_by_fields(key, 1018, f, 16);
        assert(level_of(key) == top / 16);
    } else if e == 1019 {
        lemma_level_by_fields(key, 1019, f, 8);
        assert(level_of(key) == top / 8);
    } else if e == 1020 {
        lemma_level_by_fields(key, 1020, f, 4);
        assert(level_of(key) == top / 4);
    } else if e == 1021 {
        lemma_level_by_fields(key, 1021, f, 2);
        assert(level_of(key) == top / 2);
    } else if e == 1022 {
        lemma_level_by_fields(key, 1022, f, 1);
        assert(level_of(key) == top / 1);
    }
}

/// Within one exponent field the level grows with the fraction field.
proof fn lemma_level_monotone_in_fraction(a: int, b: int, e: int, d: int)
    requires
        0 <= a <= b,
        a / 0x10_0000_0000_0000 == e,
        b / 0x10_0000_0000_0000 == e,
        FIRST_LEVEL_EXPONENT <= e <= LAST_LEVEL_EXPONENT,
        d == two_to((LAST_LEVEL_EXPONENT - e) as nat),
        d == 1 || d == 2 || d == 4 || d == 8 || d == 16 || d == 32 || d == 64 || d == 128,
    ensures
        level_of(a) <= level_of(b),
{
    let fa = a % 0x10_0000_0000_0000;
    let fb = b % 0x10_0000_0000_0000;
    lemma_level_by_fields(a, e, fa, d);
    lemma_level_by_fields(b, e, fb, d);
    let ta = (0x10_0000_0000_0000 + fa) / 0x2000_0000_0000;
    let tb = (0x10_0000_0000_0000 + fb) / 0x2000_0000_0000;
    assert(ta <= tb);
    assert(ta / d <= tb / d) by (nonlinear_arith)
        requires
            0 <= ta <= tb,
            d > 0,
    ;
}

/// A brighter channel never gets a lower level.
pub proof fn lemma_level_monotone(a: int, b: int)
    requires
        0 <= a <= b <= CHANNEL_MAX_KEY,
    ensures
        level_of(a) <= level_of(b),
{
    lemma_two_to_values();
    lemma_level_range(a);
    lemma_level_range(b);
    let ea = a / 0x10_0000_0000_0000;
    let eb = b / 0x10_0000_0000_0000;
    assert(ea <= eb <= 1022);
    if ea < 1015 {
    } else if ea == eb {
        if ea == 1015 {
            lemma_level_monotone_in_fraction(a, b, ea, 128);
        } else if ea == 1016 {
            lemma_level_monotone_in_fraction(a, b, ea, 64);
        } else if ea == 1017 {
            lemma_level_monotone_in_fraction(a, b, ea, 32);
        } else if ea == 1018 {
            lemma_level_monotone_in_fraction(a, b, ea, 16);
        } else if ea == 1019 {
            lemma_level_monotone_in_fraction(a, b, ea, 8);
        } else if ea == 1020 {
            lemma_level_monotone_in_fraction(a, b, ea, 4);
        } else if ea == 1021 {
            lemma_level_monotone_in_fraction(a, b, ea, 2);
        } else {
            lemma_level_monotone_in_fraction(a, b, ea, 1);
        }
    } else {
        lemma_two_to_below((ea - 1015) as nat, (eb - 1015) as nat);
    }
}

/// The level of a channel is the integer part of 256 times the channel: it
/// is `n` exactly for the keys from that of `n / 256` up to, and without,
/// that of `(n + 1) / 256`.
pub proof fn lemma_level_is_floor(key: int, n: int)
    requires
        0 <= key <= CHANNEL_MAX_KEY,
        0 <= n <= 255,
    ensures
        level_of(key) == n <==> edge_key(n) <= key < edge_key(n + 1),
{
    lemma_two_to_values();
    lemma_level_range(key);
    if n >= 1 {
        lemma_level_steps_at_edge(n);
        if edge_key(n) <= key {
            lemma_level_monotone(edge_key(n), key);
        } else {
            lemma_level_monotone(key, edge_key(n) - 1);
        }
    }
    if n <= 254 {
        lemma_level_steps_at_edge(n + 1);
        if key < edge_key(n + 1) {
            lemma_level_monotone(key, edge_key(n + 1) - 1);
        } else {
            lemma_level_monotone(edge_key(n + 1), key);
        }
    } else {
        lemma_edge_by_octave(256, 8, 256, 0x1000_0000_0000);
    }
}

/// Appends `n` in decimal to `out`.
pub fn push_decimal(out: &mut Vec<u8>, n: u32)
    ensures
        final(out)@ == old(out)@ + decimal(n as nat),
    decreases n,
{
    if n >= 10 {
        push_decimal(out, n / 10);
    }
    let digit: u8 = (n % 10) as u8;
    out.push(48u8 + digit);
    proof {
        assert(final(out)@ =~= old(out)@ + decimal(n as nat));
    }
}

/// The line that is written for a pixel of colour `pixel_color`.
///
/// The colour is the average of the pixel's samples after gamma correction.
/// Each channel is clamped to `[0, 0.999]` and scaled to `0..=255`; the line
/// holds the three levels in decimal, red first.
pub fn write_color(pixel_color: Color) -> (line: Vec<u8>)
    ensures
        line@ == pixel_line(
            level_of(clamped(pixel_color@[0], 0, CHANNEL_MAX_KEY as int)) as nat,
            level_of(clamped(pixel_color@[1], 0, CHANNEL_MAX_KEY as int)) as nat,
            level_of(clamped(pixel_color@[2], 0, CHANNEL_MAX_KEY as int)) as nat,
        ),
{
    let r: u8 = quantize(pixel_color.x());
    let g: u8 = quantize(pixel_color.y());
    let b: u8 = quantize(pixel_color.z());
    let mut line: Vec<u8> = Vec::new();
    push_decimal(&mut line, r as u32);
    line.push(32u8);
    push_decimal(&mut line, g as u32);
    line.push(32u8);
    push_decimal(&mut line, b as u32);
    line.push(10u8);
    proof {
        assert(line@ =~= pixel_line(r as nat, g as nat, b as nat));
    }
    line
}

} // verus!
