//! Positive binary64 numbers held exactly in integers.
//!
//! A number is a pair `(m, e)` of a significand `2^52 <= m < 2^53` and an
//! exponent offset `e`; its value is `m · 2^e / 2^64`. Every operation rounds
//! its exact result to the nearest such number, ties to an even significand,
//! the way binary64 arithmetic does.
use vstd::prelude::*;
use vstd::arithmetic::power2::{
    pow2, lemma_pow2_pos, lemma_pow2_adds, lemma_pow2_unfold, lemma_pow2_strictly_increases,
    lemma2_to64, lemma2_to64_rest,
};
use vstd::arithmetic::div_mod::{lemma_fundamental_div_mod, lemma_fundamental_div_mod_converse};

verus! {

/// `n / d` rounded to the nearest integer, halves to the even one.
pub open spec fn round_half_even(n: nat, d: nat) -> nat {
    let q = n / d;
    let r = n % d;
    if 2 * r > d || (2 * r == d && q % 2 == 1) {
        q + 1
    } else {
        q
    }
}

/// `a / b · 2^(64 - e)` lies in `[2^52, 2^53)`: exponent offset `e` is the
/// one of the binade that holds `a / b`.
pub open spec fn in_binade(a: nat, b: nat, e: nat) -> bool {
    pow2(52) * (b * pow2(e)) <= a * pow2(64) && a * pow2(64) < pow2(53) * (b * pow2(e))
}

/// The binary64 number nearest to `a / b`, ties to an even significand.
pub open spec fn nearest(a: nat, b: nat) -> (nat, nat) {
    let e = choose|e: nat| in_binade(a, b, e);
    let m = round_half_even(a * pow2(64), b * pow2(e));
    if m == pow2(53) {
        (pow2(52), e + 1)
    } else {
        (m, e)
    }
}

/// A significand of 53 bits.
pub open spec fn normal(d: (nat, nat)) -> bool {
    pow2(52) <= d.0 < pow2(53)
}

/// `d` is at least `c`.
pub open spec fn at_least(d: (nat, nat), c: nat) -> bool {
    d.0 * pow2(d.1) >= c * pow2(64)
}

/// `d / 1000`, rounded.
pub open spec fn div1000(d: (nat, nat)) -> (nat, nat) {
    nearest(d.0 * pow2(d.1), pow2(64) * 1000)
}

/// The integer part of `d`.
pub open spec fn floor(d: (nat, nat)) -> nat {
    d.0 * pow2(d.1) / pow2(64)
}

/// `d · 10^p` rounded to an integer, halves to even: the digits of `d` with
/// `p` of them after the point.
pub open spec fn scaled_digits(d: (nat, nat), scale: nat) -> nat {
    round_half_even(d.0 * pow2(d.1) * scale, pow2(64))
}

/// `d · k / 4`, rounded to the nearest number.
pub open spec fn times_quarters_spec(d: (nat, nat), k: nat) -> (nat, nat) {
    nearest(d.0 * k * pow2(d.1), 4 * pow2(64))
}

/// `d` rounded to the nearest integer, halves away from zero.
pub open spec fn round_away(d: (nat, nat)) -> nat {
    (d.0 * pow2(d.1) + pow2(63)) / pow2(64)
}

// ---------------------------------------------------------------------------
// Lemmas
// ---------------------------------------------------------------------------

proof fn lemma_powers()
    ensures
        pow2(52) == 0x10_0000_0000_0000,
        pow2(53) == 0x20_0000_0000_0000,
        pow2(54) == 0x40_0000_0000_0000,
        pow2(64) == 0x1_0000_0000_0000_0000,
        pow2(11) == 2048,
        pow2(10) == 1024,
        pow2(9) == 512,
        pow2(20) == 0x10_0000,
{
    lemma2_to64();
    lemma2_to64_rest();
}

/// A power of two with a larger exponent is a multiple at least twice as big.
proof fn lemma_pow2_double(e1: nat, e2: nat)
    requires
        e1 < e2,
    ensures
        pow2(e2) >= 2 * pow2(e1),
{
    lemma_pow2_adds(e1, (e2 - e1) as nat);
    lemma_pow2_strictly_increases(0, (e2 - e1) as nat);
    lemma2_to64();
    let k = pow2((e2 - e1) as nat);
    let p = pow2(e1);
    assert(p * k >= p * 2) by (nonlinear_arith)
        requires
            k >= 2,
    ;
}

/// Powers of two grow with their exponent.
proof fn lemma_pow2_le(e1: nat, e2: nat)
    requires
        e1 <= e2,
    ensures
        pow2(e1) <= pow2(e2),
{
    if e1 < e2 {
        lemma_pow2_strictly_increases(e1, e2);
    }
}

/// At most one binade holds a positive quotient.
proof fn lemma_binade_unique(a: nat, b: nat, e1: nat, e2: nat)
    requires
        b > 0,
        in_binade(a, b, e1),
        in_binade(a, b, e2),
    ensures
        e1 == e2,
{
    if e1 != e2 {
        let (lo, hi) = if e1 < e2 {
            (e1, e2)
        } else {
            (e2, e1)
        };
        lemma_pow2_double(lo, hi);
        lemma_powers();
        let x = b * pow2(lo);
        let y = b * pow2(hi);
        assert(y >= 2 * x) by (nonlinear_arith)
            requires
                pow2(hi) >= 2 * pow2(lo),
                x == b * pow2(lo),
                y == b * pow2(hi),
        ;
        let p = pow2(52);
        assert(p * y >= pow2(53) * x) by (nonlinear_arith)
            requires
                y >= 2 * x,
                pow2(53) == 2 * p,
                p >= 0,
        ;
    }
}

/// The nearest number to `a / b`, read at the binade that holds the quotient.
proof fn lemma_nearest_at(a: nat, b: nat, e: nat)
    requires
        b > 0,
        in_binade(a, b, e),
    ensures
        nearest(a, b) == ({
            let m = round_half_even(a * pow2(64), b * pow2(e));
            if m == pow2(53) {
                (pow2(52), e + 1)
            } else {
                (m, e)
            }
        }),
{
    let c = choose|e: nat| in_binade(a, b, e);
    assert(in_binade(a, b, c));
    lemma_binade_unique(a, b, c, e);
}

/// Scaling numerator and denominator by the same amount keeps the quotient and
/// scales the remainder.
proof fn lemma_div_scale(x: nat, y: nat, c: nat)
    requires
        y > 0,
        c > 0,
    ensures
        (x * c) / (y * c) == x / y,
        (x * c) % (y * c) == (x % y) * c,
{
    lemma_fundamental_div_mod(x as int, y as int);
    let q = x / y;
    let r = x % y;
    assert(x * c == q * (y * c) + r * c && 0 <= r * c < y * c) by (nonlinear_arith)
        requires
            x == y * q + r,
            0 <= r < y,
            c > 0,
    ;
    lemma_fundamental_div_mod_converse((x * c) as int, (y * c) as int, q as int, (r * c) as int);
}

/// Rounding a quotient does not depend on a common factor.
proof fn lemma_round_scale(x: nat, y: nat, c: nat)
    requires
        y > 0,
        c > 0,
    ensures
        round_half_even(x * c, y * c) == round_half_even(x, y),
{
    lemma_div_scale(x, y, c);
    let r = x % y;
    assert(2 * (r * c) > y * c <==> 2 * r > y) by (nonlinear_arith)
        requires
            c > 0,
    ;
    assert(2 * (r * c) == y * c <==> 2 * r == y) by (nonlinear_arith)
        requires
            c > 0,
    ;
}

/// A rounded quotient of something in `[lo·d, hi·d)` lies in `[lo, hi]`.
proof fn lemma_round_bounds(n: nat, d: nat, lo: nat, hi: nat)
    requires
        d > 0,
        lo * d <= n,
        n < hi * d,
    ensures
        lo <= n / d < hi,
        lo <= round_half_even(n, d) <= hi,
{
    lemma_fundamental_div_mod(n as int, d as int);
    let q = n / d;
    let r = n % d;
    assert(lo <= q < hi) by (nonlinear_arith)
        requires
            n == d * q + r,
            0 <= r < d,
            lo * d <= n,
            n < hi * d,
    ;
}


// ---------------------------------------------------------------------------
// Arithmetic
// ---------------------------------------------------------------------------

/// `2^k`.
fn power_of_two(k: u64) -> (r: u128)
    requires
        k < 128,
    ensures
        r == pow2(k as nat),
{
    let mut r: u128 = 1;
    let mut i: u64 = 0;
    proof {
        lemma2_to64();
    }
    while i < k
        invariant
            i <= k < 128,
            r == pow2(i as nat),
        decreases k - i,
    {
        proof {
            lemma_pow2_unfold((i + 1) as nat);
            lemma_pow2_strictly_increases((i + 1) as nat, 128);
            lemma_pow2_adds(64, 64);
            lemma_powers();
        }
        r = r * 2;
        i = i + 1;
    }
    r
}

/// `n / d` rounded to the nearest integer, halves to the even one.
fn rounded_quotient(n: u128, d: u128) -> (r: u128)
    requires
        d > 0,
    ensures
        r == round_half_even(n as nat, d as nat),
{
    let q = n / d;
    let rem = n % d;
    if rem > d - rem || (rem == d - rem && q % 2 == 1) {
        assert(q < 0xffff_ffff_ffff_ffff_ffff_ffff_ffff_ffff) by (nonlinear_arith)
            requires
                d >= 2,
                q == n / d,
                n <= 0xffff_ffff_ffff_ffff_ffff_ffff_ffff_ffff,
        ;
        q + 1
    } else {
        q
    }
}

/// The number nearest to a nonzero count.
pub fn from_count(n: u64) -> (r: (u64, u64))
    requires
        n > 0,
    ensures
        (r.0 as nat, r.1 as nat) == nearest(n as nat, 1),
        normal((r.0 as nat, r.1 as nat)),
        12 <= r.1 <= 76,
{
    proof {
        lemma_powers();
    }
    let mut bits: u64 = 0;
    let mut p: u128 = 1;
    proof {
        lemma2_to64();
    }
    while p <= n as u128
        invariant
            bits <= 64,
            p == pow2(bits as nat),
            bits > 0 ==> pow2((bits - 1) as nat) <= n,
            n > 0,
            pow2(64) == 0x1_0000_0000_0000_0000,
        decreases 64 - bits,
    {
        if bits >= 64 {
            proof {
                lemma_pow2_le(64, bits as nat);
            }
        }
        proof {
            lemma_pow2_unfold((bits + 1) as nat);
        }
        p = p * 2;
        bits = bits + 1;
    }
    proof {
        lemma2_to64();
    }
    assert(bits >= 1);
    let e: u64 = 11 + bits;
    let sn: u128 = n as u128 * 0x1_0000_0000_0000_0000u128;
    let sd: u128 = power_of_two(e);
    proof {
        lemma_pow2_adds(52, e as nat);
        lemma_pow2_adds(53, e as nat);
        lemma_pow2_adds((bits - 1) as nat, 64);
        lemma_pow2_adds(bits as nat, 64);
        assert(52 + e == (bits - 1) + 64);
        assert(53 + e == bits + 64);
        let lo = pow2((bits - 1) as nat);
        let hi = pow2(bits as nat);
        assert(lo * pow2(64) <= n * pow2(64)) by (nonlinear_arith)
            requires
                lo <= n,
        ;
        assert(n * pow2(64) < hi * pow2(64)) by (nonlinear_arith)
            requires
                n < hi,
                pow2(64) > 0,
        ;
        assert(in_binade(n as nat, 1, e as nat));
        lemma_nearest_at(n as nat, 1, e as nat);
        assert(sn == n * pow2(64));
        lemma_pow2_pos(e as nat);
        lemma_round_bounds(sn as nat, sd as nat, pow2(52), pow2(53));
    }
    let m = rounded_quotient(sn, sd);
    if m == 0x20_0000_0000_0000 {
        (0x10_0000_0000_0000, e + 1)
    } else {
        (m as u64, e)
    }
}


/// A number from an offset of 64 on is at least `2^52`.
proof fn lemma_large_offset(d: (nat, nat))
    requires
        normal(d),
        d.1 >= 64,
    ensures
        d.0 * pow2(d.1) >= pow2(52) * pow2(64),
{
    lemma_pow2_le(64, d.1);
    lemma_mul_le(pow2(52), d.0, pow2(64), pow2(d.1));
}

/// `a <= b` and `c <= d` give `a·c <= b·d` on naturals.
proof fn lemma_mul_le(a: nat, b: nat, c: nat, d: nat)
    requires
        a <= b,
        c <= d,
    ensures
        a * c <= b * d,
{
    assert(a * c <= b * d) by (nonlinear_arith)
        requires
            a <= b,
            c <= d,
    ;
}

/// Whether `d` is at least `c`.
pub fn is_at_least(m: u64, e: u64, c: u64) -> (r: bool)
    requires
        normal((m as nat, e as nat)),
        e <= 76,
        c <= 1000,
    ensures
        r == at_least((m as nat, e as nat), c as nat),
{
    proof {
        lemma_powers();
    }
    if e >= 64 {
        proof {
            lemma_large_offset((m as nat, e as nat));
            lemma_mul_le(c as nat, pow2(52), pow2(64), pow2(64));
        }
        true
    } else {
        let pe = power_of_two(e);
        proof {
            lemma_pow2_le(e as nat, 63);
            lemma2_to64_rest();
            assert(m * pe < 0x20_0000_0000_0000 * 0x8000_0000_0000_0000u128) by (nonlinear_arith)
                requires
                    m < 0x20_0000_0000_0000,
                    pe <= 0x8000_0000_0000_0000u128,
            ;
        }
        let lhs: u128 = m as u128 * pe;
        let rhs: u128 = c as u128 * 0x1_0000_0000_0000_0000u128;
        lhs >= rhs
    }
}

/// `d / 1000`, rounded to the nearest number.
pub fn divide_by_1000(m: u64, e: u64) -> (r: (u64, u64))
    requires
        normal((m as nat, e as nat)),
        e <= 76,
        at_least((m as nat, e as nat), 1000),
    ensures
        (r.0 as nat, r.1 as nat) == div1000((m as nat, e as nat)),
        normal((r.0 as nat, r.1 as nat)),
        r.1 + 8 <= e,
{
    proof {
        lemma_powers();
        if e <= 20 {
            lemma_pow2_le(e as nat, 20);
            assert(m * pow2(e as nat) < 1000 * pow2(64)) by (nonlinear_arith)
                requires
                    m < 0x20_0000_0000_0000,
                    pow2(e as nat) <= 0x10_0000,
                    pow2(64) == 0x1_0000_0000_0000_0000,
            ;
        }
    }
    let n: u64 = m * 2048;
    let wide: bool = n >= 18_014_398_509_481_984_000;
    let d: u64 = if wide {
        4000
    } else {
        2000
    };
    let e2: u64 = if wide {
        e - 9
    } else {
        e - 10
    };
    let ghost a: nat = m as nat * pow2(e as nat);
    let ghost b: nat = pow2(64) * 1000;
    let ghost c: nat = pow2((e - 11) as nat) * pow2(64);
    proof {
        let t = pow2((e - 11) as nat);
        lemma_pow2_pos((e - 11) as nat);
        lemma_pow2_adds(11, (e - 11) as nat);
        lemma_pow2_adds(1, (e - 11) as nat);
        lemma_pow2_adds(2, (e - 11) as nat);
        lemma_pow2_adds(52, e2 as nat);
        lemma_pow2_adds(53, e2 as nat);
        lemma2_to64();
        assert(a * pow2(64) == n * c) by (nonlinear_arith)
            requires
                a == m * pow2(e as nat),
                pow2(e as nat) == 2048 * t,
                n == m * 2048,
                c == t * pow2(64),
        ;
        assert(b * pow2(e2 as nat) == d * c) by (nonlinear_arith)
            requires
                b == pow2(64) * 1000,
                c == t * pow2(64),
                pow2(e2 as nat) == (if wide { 4 * t } else { 2 * t }),
                d == (if wide { 4000nat } else { 2000nat }),
        ;
        assert(pow2(52) * d <= n < pow2(53) * d) by {
            if wide {
                assert(n < 0x1_0000_0000_0000_0000);
            } else {
                assert(n >= 0x10_0000_0000_0000 * 2048) by (nonlinear_arith)
                    requires
                        m >= 0x10_0000_0000_0000,
                        n == m * 2048,
                ;
            }
        }
        assert(pow2(52) * (b * pow2(e2 as nat)) <= a * pow2(64) < pow2(53) * (b * pow2(e2 as nat)))
            by (nonlinear_arith)
            requires
                a * pow2(64) == n * c,
                b * pow2(e2 as nat) == d * c,
                pow2(52) * d <= n < pow2(53) * d,
                c > 0,
        ;
        assert(in_binade(a, b, e2 as nat));
        lemma_nearest_at(a, b, e2 as nat);
        lemma_round_scale(n as nat, d as nat, c);
        lemma_round_bounds(n as nat, d as nat, pow2(52), pow2(53));
    }
    let q = rounded_quotient(n as u128, d as u128);
    if q == 0x20_0000_0000_0000 {
        (0x10_0000_0000_0000, e2 + 1)
    } else {
        (q as u64, e2)
    }
}


/// The integer part of a number below 1000.
pub fn integer_part(m: u64, e: u64) -> (r: u64)
    requires
        normal((m as nat, e as nat)),
        !at_least((m as nat, e as nat), 1000),
    ensures
        r == floor((m as nat, e as nat)),
{
    proof {
        lemma_powers();
        if e >= 64 {
            lemma_large_offset((m as nat, e as nat));
            lemma_mul_le(1000, pow2(52), pow2(64), pow2(64));
        }
    }
    let sh: u64 = 64 - e;
    let pd = power_of_two(sh);
    proof {
        lemma_pow2_adds(sh as nat, e as nat);
        lemma_pow2_pos(sh as nat);
        lemma_pow2_pos(e as nat);
        lemma_div_scale(m as nat, pd as nat, pow2(e as nat));
        assert(m as nat * pow2(e as nat) == (m as nat) * pow2(e as nat));
    }
    (m as u128 / pd) as u64
}

/// The digits of `d · scale`, rounded half to even, for a scale of 1, 10 or
/// 100 and a number below 100 when the scale is above 1.
pub fn rounded_digits(m: u64, e: u64, scale: u64) -> (r: u64)
    requires
        normal((m as nat, e as nat)),
        e <= 68,
        scale == 1 || scale == 10 || scale == 100,
        scale > 1 ==> !at_least((m as nat, e as nat), 100),
    ensures
        r == scaled_digits((m as nat, e as nat), scale as nat),
{
    proof {
        lemma_powers();
    }
    if e >= 64 {
        proof {
            if scale > 1 {
                lemma_large_offset((m as nat, e as nat));
                lemma_mul_le(100, pow2(52), pow2(64), pow2(64));
            }
        }
        let k: u64 = e - 64;
        let pk = power_of_two(k);
        proof {
            lemma_pow2_le(k as nat, 4);
            lemma2_to64();
            assert(m * pk <= 0x20_0000_0000_0000 * 16) by (nonlinear_arith)
                requires
                    m < 0x20_0000_0000_0000,
                    pk <= 16,
            ;
            lemma_pow2_adds(k as nat, 64);
            let z: nat = m as nat * pk as nat;
            assert(m as nat * pow2(e as nat) * scale as nat == z * pow2(64)) by (nonlinear_arith)
                requires
                    scale == 1,
                    pow2(e as nat) == pk * pow2(64),
                    z == m * pk,
            ;
            lemma_pow2_pos(64);
            lemma_round_scale(z, 1, pow2(64));
            assert(z / 1 == z && z % 1 == 0);
        }
        (m as u128 * pk) as u64
    } else {
        let x: u128 = m as u128 * scale as u128;
        let sh: u64 = 64 - e;
        let y = power_of_two(sh);
        proof {
            lemma_pow2_adds(sh as nat, e as nat);
            lemma_pow2_pos(sh as nat);
            lemma_pow2_pos(e as nat);
            assert(m as nat * pow2(e as nat) * scale as nat == x as nat * pow2(e as nat)) by (nonlinear_arith)
                requires
                    x == m * scale,
            ;
            lemma_round_scale(x as nat, y as nat, pow2(e as nat));
            lemma_fundamental_div_mod(x as int, y as int);
            assert(x / y <= x) by (nonlinear_arith)
                requires
                    y >= 1,
            ;
        }
        let q = rounded_quotient(x, y);
        q as u64
    }
}

/// `d · k / 4` for `k` of 1, 2 or 3, rounded to the nearest number.
pub fn times_quarters(m: u64, e: u64, k: u64) -> (r: (u64, u64))
    requires
        normal((m as nat, e as nat)),
        2 <= e <= 76,
        1 <= k <= 3,
    ensures
        (r.0 as nat, r.1 as nat) == times_quarters_spec((m as nat, e as nat), k as nat),
        normal((r.0 as nat, r.1 as nat)),
        r.1 <= e + 1,
{
    proof {
        lemma_powers();
        lemma2_to64();
    }
    let n: u64 = m * k;
    let (d, e2): (u64, u64) = if n < 0x20_0000_0000_0000 {
        (1, e - 2)
    } else if n < 0x40_0000_0000_0000 {
        (2, e - 1)
    } else {
        (4, e)
    };
    let ghost a: nat = m as nat * k as nat * pow2(e as nat);
    let ghost b: nat = 4 * pow2(64);
    let ghost c: nat = pow2(e as nat) * pow2(64);
    proof {
        lemma_pow2_pos(e as nat);
        lemma_pow2_pos(64);
        lemma_pow2_adds(2, (e - 2) as nat);
        lemma_pow2_adds(1, (e - 1) as nat);
        lemma_pow2_adds(52, e2 as nat);
        lemma_pow2_adds(53, e2 as nat);
        assert(a * pow2(64) == n * c) by (nonlinear_arith)
            requires
                a == m * k * pow2(e as nat),
                n == m * k,
                c == pow2(e as nat) * pow2(64),
        ;
        assert(4 * pow2(e2 as nat) == d * pow2(e as nat));
        assert(b * pow2(e2 as nat) == d * c) by (nonlinear_arith)
            requires
                b == 4 * pow2(64),
                c == pow2(e as nat) * pow2(64),
                4 * pow2(e2 as nat) == d * pow2(e as nat),
        ;
        assert(pow2(52) * d <= n < pow2(53) * d) by {
            if k >= 2 {
                assert(n >= 2 * m) by (nonlinear_arith)
                    requires
                        n == m * k,
                        k >= 2,
                ;
            }
            assert(n < 3 * 0x20_0000_0000_0000) by (nonlinear_arith)
                requires
                    n == m * k,
                    k <= 3,
                    m < 0x20_0000_0000_0000,
            ;
        }
        assert(pow2(52) * (b * pow2(e2 as nat)) <= a * pow2(64) < pow2(53) * (b * pow2(e2 as nat)))
            by (nonlinear_arith)
            requires
                a * pow2(64) == n * c,
                b * pow2(e2 as nat) == d * c,
                pow2(52) * d <= n < pow2(53) * d,
                c > 0,
        ;
        assert(in_binade(a, b, e2 as nat));
        lemma_nearest_at(a, b, e2 as nat);
        lemma_round_scale(n as nat, d as nat, c);
        lemma_round_bounds(n as nat, d as nat, pow2(52), pow2(53));
    }
    let q = rounded_quotient(n as u128, d as u128);
    if q == 0x20_0000_0000_0000 {
        (0x10_0000_0000_0000, e2 + 1)
    } else {
        (q as u64, e2)
    }
}

/// `d` rounded to the nearest integer, halves away from zero.
pub fn round_half_away(m: u64, e: u64) -> (r: u128)
    requires
        normal((m as nat, e as nat)),
        e <= 77,
    ensures
        r == round_away((m as nat, e as nat)),
{
    proof {
        lemma_powers();
        lemma2_to64();
        lemma_pow2_pos(e as nat);
    }
    if e >= 64 {
        let k: u64 = e - 64;
        let pk = power_of_two(k);
        proof {
            lemma_pow2_le(k as nat, 13);
            lemma_pow2_adds(k as nat, 64);
            lemma_pow2_adds(63, 1);
            assert(pow2(13) == 0x2000) by {
                lemma_pow2_adds(12, 1);
                lemma2_to64();
            }
            assert(m * pk <= 0x20_0000_0000_0000 * 0x2000) by (nonlinear_arith)
                requires
                    m < 0x20_0000_0000_0000,
                    pk <= 0x2000,
            ;
            let z: nat = m as nat * pk as nat;
            assert(m as nat * pow2(e as nat) + pow2(63) == z * pow2(64) + pow2(63)) by (nonlinear_arith)
                requires
                    pow2(e as nat) == pk * pow2(64),
                    z == m * pk,
            ;
            assert(pow2(63) < pow2(64)) by {
                lemma_pow2_strictly_increases(63, 64);
            }
            lemma_fundamental_div_mod_converse(
                (z * pow2(64) + pow2(63)) as int,
                pow2(64) as int,
                z as int,
                pow2(63) as int,
            );
        }
        m as u128 * pk
    } else {
        let sh: u64 = 64 - e;
        let y = power_of_two(sh);
        let half = power_of_two(sh - 1);
        proof {
            lemma_pow2_adds(sh as nat, e as nat);
            lemma_pow2_adds((sh - 1) as nat, e as nat);
            lemma_pow2_pos(sh as nat);
            lemma_pow2_le((sh - 1) as nat, 63);
            lemma2_to64_rest();
            let x: nat = m as nat + half as nat;
            assert(m as nat * pow2(e as nat) + pow2(63) == x * pow2(e as nat)) by (nonlinear_arith)
                requires
                    x == m + half,
                    pow2(63) == half * pow2(e as nat),
            ;
            lemma_div_scale(x, y as nat, pow2(e as nat));
        }
        (m as u128 + half) / y
    }
}

} // verus!
