//! Quotients shown with one decimal.
//!
//! The counters show `n / d` the way a 64-bit floating point division prints:
//! the quotient rounded to a 53-bit significand, then rounded to one decimal.
//! Both roundings are to nearest, ties to even. All of it is integer
//! arithmetic here.

use vstd::prelude::*;
use crate::text::decimal;

verus! {

/// Values below this fit a 53-bit significand.
pub const SIGNIFICAND_LIMIT: u128 = 9007199254740992;

/// Half of [`SIGNIFICAND_LIMIT`]: the scale of a quotient of 1.
pub const UNIT_SCALE: u128 = 4503599627370496;

/// `a / b` rounded to nearest, ties to even.
pub open spec fn nearest(a: int, b: int) -> int {
    let q = a / b;
    let r = a % b;
    if 2 * r > b || (2 * r == b && q % 2 == 1) {
        q + 1
    } else {
        q
    }
}

/// The first of `w`, `2 * w`, `4 * w` and so on, at most `fuel` doublings, by
/// which `n` comes below [`SIGNIFICAND_LIMIT`].
pub open spec fn step_of(n: int, w: int, fuel: nat) -> int
    decreases fuel,
{
    if fuel == 0 || n / w < SIGNIFICAND_LIMIT {
        w
    } else {
        step_of(n, 2 * w, (fuel - 1) as nat)
    }
}

/// `n` with a 53-bit significand.
pub open spec fn significant(n: int) -> int {
    let w = step_of(n, 1, 64);
    nearest(n, w) * w
}

/// Largest halving of `scale` for which `n * scale / d` is below
/// [`SIGNIFICAND_LIMIT`].
pub open spec fn scale_of(n: int, d: int, scale: int) -> int
    decreases scale,
{
    if scale <= 1 || n * scale / d < SIGNIFICAND_LIMIT {
        scale
    } else {
        scale_of(n, d, scale / 2)
    }
}

/// The significand of `n / d` and its scale: the quotient is their ratio.
pub open spec fn quotient(n: int, d: int) -> (int, int) {
    let m = significant(n);
    let scale = scale_of(m, d, UNIT_SCALE as int);
    (nearest(m * scale, d), scale)
}

/// `n / d` with one decimal.
pub open spec fn one_decimal(n: int, d: int) -> Seq<char> {
    let (m, scale) = quotient(n, d);
    let tenths = nearest(10 * m, scale);
    decimal((tenths / 10) as nat) + "."@ + decimal((tenths % 10) as nat)
}

/// `n / d` with one decimal, or without when it is whole.
pub open spec fn short_decimal(n: int, d: int) -> Seq<char> {
    let (m, scale) = quotient(n, d);
    if m % scale == 0 {
        decimal((m / scale) as nat)
    } else {
        one_decimal(n, d)
    }
}

proof fn lemma_division(a: int, b: int)
    requires
        0 <= a,
        0 < b,
    ensures
        a == b * (a / b) + a % b,
        0 <= a % b < b,
        0 <= a / b <= a,
        b * (a / b) <= a,
{
    vstd::arithmetic::div_mod::lemma_fundamental_div_mod(a, b);
    vstd::arithmetic::div_mod::lemma_mod_bound(a, b);
    vstd::arithmetic::div_mod::lemma_div_pos_is_pos(a, b);
    vstd::arithmetic::div_mod::lemma_div_is_ordered_by_denominator(a, 1, b);
}

/// `a / b` rounded to nearest, ties to even.
fn round_quotient(a: u128, b: u128) -> (r: u128)
    requires
        0 < b <= 0x1_0000_0000_0000_0000,
    ensures
        r == nearest(a as int, b as int),
        a / b <= r <= a / b + 1,
        b == 1 ==> r == a,
{
    let q: u128 = a / b;
    let rem: u128 = a % b;
    let twice: u128 = 2 * rem;
    proof {
        lemma_division(a as int, b as int);
    }
    if twice > b || (twice == b && q % 2 == 1) {
        proof {
            assert(b > 1);
            assert(b * q >= 2 * q) by (nonlinear_arith)
                requires
                    b >= 2,
                    q >= 0,
            ;
        }
        q + 1
    } else {
        q
    }
}

/// `n` with a 53-bit significand.
fn to_significant(n: u64) -> (r: u128)
    ensures
        r == significant(n as int),
        r <= 0x2_0000_0000_0000_0000,
{
    let wide: u128 = n as u128;
    let mut w: u128 = 1;
    let mut fuel: usize = 64;
    while wide / w >= SIGNIFICAND_LIMIT
        invariant
            1 <= w <= 4096,
            wide == n,
            52 <= fuel <= 64,
            w == 1 ==> fuel == 64,
            w <= 1 || w == 2 || w == 4 || w == 8 || w == 16 || w == 32 || w == 64 || w == 128 || w
                == 256 || w == 512 || w == 1024 || w == 2048 || w == 4096,
            w == 2 ==> fuel == 63,
            w == 4 ==> fuel == 62,
            w == 8 ==> fuel == 61,
            w == 16 ==> fuel == 60,
            w == 32 ==> fuel == 59,
            w == 64 ==> fuel == 58,
            w == 128 ==> fuel == 57,
            w == 256 ==> fuel == 56,
            w == 512 ==> fuel == 55,
            w == 1024 ==> fuel == 54,
            w == 2048 ==> fuel == 53,
            w == 4096 ==> fuel == 52,
            step_of(n as int, 1, 64) == step_of(n as int, w as int, fuel as nat),
        decreases 4096 - w,
    {
        proof {
            lemma_division(wide as int, w as int);
            let q = wide as int / w as int;
            assert(w < 2048) by (nonlinear_arith)
                requires
                    q >= 9007199254740992,
                    w * q <= wide,
                    wide <= 18446744073709551615,
                    w >= 1,
            ;
        }
        w = 2 * w;
        fuel = fuel - 1;
    }
    let q: u128 = round_quotient(wide, w);
    proof {
        assert(q <= SIGNIFICAND_LIMIT);
        assert(q * w <= 9007199254740992 * 4096) by (nonlinear_arith)
            requires
                q <= 9007199254740992,
                w <= 4096,
        ;
    }
    q * w
}

/// The significand of `n / d` and its scale.
fn divide(n: u64, d: u64) -> (r: (u128, u128))
    requires
        0 < d,
    ensures
        (r.0 as int, r.1 as int) == quotient(n as int, d as int),
        1 <= r.1 <= UNIT_SCALE,
        r.0 <= 0x2_0000_0000_0000_0000 * UNIT_SCALE + 1,
{
    let m: u128 = to_significant(n);
    let mut scale: u128 = UNIT_SCALE;
    let by: u128 = d as u128;
    proof {
        lemma_product_bound(m, scale);
    }
    while scale > 1 && m * scale / by >= SIGNIFICAND_LIMIT
        invariant
            1 <= scale <= UNIT_SCALE,
            m <= 0x2_0000_0000_0000_0000,
            m * scale <= 0x2_0000_0000_0000_0000 * UNIT_SCALE,
            by == d,
            by > 0,
            scale_of(m as int, d as int, UNIT_SCALE as int) == scale_of(
                m as int,
                d as int,
                scale as int,
            ),
        decreases scale,
    {
        scale = scale / 2;
        proof {
            lemma_product_bound(m, scale);
        }
    }
    let q: u128 = round_quotient(m * scale, by);
    proof {
        lemma_division(m * scale, by as int);
    }
    (q, scale)
}

proof fn lemma_product_bound(m: u128, scale: u128)
    requires
        m <= 0x2_0000_0000_0000_0000,
        scale <= UNIT_SCALE,
    ensures
        m * scale <= 0x2_0000_0000_0000_0000 * UNIT_SCALE,
        0x2_0000_0000_0000_0000 * UNIT_SCALE * 10 + 10 <= u128::MAX,
{
    assert(m * scale <= 0x2_0000_0000_0000_0000 * UNIT_SCALE) by (nonlinear_arith)
        requires
            m <= 0x2_0000_0000_0000_0000,
            scale <= UNIT_SCALE,
    ;
}

/// Decimal text of a wide number.
fn wide_text(n: u128) -> (r: String)
    ensures
        r@ == decimal(n as nat),
    decreases n,
{
    let mut out: String = if n < 10 {
        String::new()
    } else {
        wide_text(n / 10)
    };
    let d: u8 = (n % 10) as u8;
    out.push((48 + d) as char);
    proof {
        assert(out@ =~= decimal(n as nat));
    }
    out
}

/// `n / d` with one decimal.
pub fn one_decimal_text(n: u64, d: u64) -> (r: String)
    requires
        0 < d,
    ensures
        r@ == one_decimal(n as int, d as int),
{
    let (m, scale) = divide(n, d);
    proof {
        lemma_product_bound(0, 0);
    }
    let tenths: u128 = round_quotient(10 * m, scale);
    let mut out: String = wide_text(tenths / 10);
    out.append(".");
    let last: String = wide_text(tenths % 10);
    out.append(last.as_str());
    out
}

/// `n / d` with one decimal, or without when it is whole.
pub fn short_decimal_text(n: u64, d: u64) -> (r: String)
    requires
        0 < d,
    ensures
        r@ == short_decimal(n as int, d as int),
{
    let (m, scale) = divide(n, d);
    if m % scale == 0 {
        wide_text(m / scale)
    } else {
        one_decimal_text(n, d)
    }
}

} // verus!
