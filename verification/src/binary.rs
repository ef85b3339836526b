//! IEEE 754 binary32 and binary64 values, read from and written to their
//! bit patterns with integer arithmetic only.
//!
//! A finite pattern denotes `(-1)^sign * significand * 2^exponent`, where
//! the significand and exponent come from the fraction and biased exponent
//! fields as the standard lays down.
use vstd::prelude::*;
use vstd::arithmetic::power2::*;
use vstd::arithmetic::div_mod::*;
use vstd::arithmetic::mul::*;
use vstd::bits::*;

verus! {

// ---------------------------------------------------------------------------
// Dyadic numbers `m * 2^e`
// ---------------------------------------------------------------------------

/// The natural number `m * 2^e`, if it is one.
pub open spec fn dyadic_integer(m: nat, e: int) -> Option<nat> {
    if e >= 0 {
        Some(m * pow2(e as nat))
    } else if m % pow2((-e) as nat) == 0 {
        Some(m / pow2((-e) as nat))
    } else {
        None
    }
}

/// `-k` when `neg`, else `k`, kept inside the option.
pub open spec fn signed_option(neg: bool, o: Option<nat>) -> Option<int> {
    match o {
        Some(k) => Some(if neg { -k } else { k as int }),
        None => None,
    }
}

/// The value held in `o` when it lies in `[lo, hi]`.
pub open spec fn within(o: Option<int>, lo: int, hi: int) -> Option<int> {
    match o {
        Some(v) => if lo <= v && v <= hi { Some(v) } else { None },
        None => None,
    }
}

/// The option of a machine integer, read as a mathematical integer.
pub open spec fn opt_i128(o: Option<i128>) -> Option<int> {
    match o {
        Some(v) => Some(v as int),
        None => None,
    }
}

/// `m1 * 2^e1 == m2 * 2^e2`.
pub open spec fn dyadic_same(m1: nat, e1: int, m2: nat, e2: int) -> bool {
    if e1 <= e2 {
        m1 == m2 * pow2((e2 - e1) as nat)
    } else {
        m2 == m1 * pow2((e1 - e2) as nat)
    }
}

// ---------------------------------------------------------------------------
// binary32: 1 sign bit, 8 exponent bits (bias 127), 23 fraction bits
// ---------------------------------------------------------------------------

/// The biased exponent field of a binary32 pattern.
pub open spec fn f32_exp_field(b: u32) -> int {
    (b as int / 0x80_0000) % 0x100
}

/// The fraction field of a binary32 pattern.
pub open spec fn f32_frac_field(b: u32) -> int {
    b as int % 0x80_0000
}

/// The sign bit of a binary32 pattern.
pub open spec fn f32_sign(b: u32) -> bool {
    b >= 0x8000_0000
}

/// The pattern denotes a finite number (zero, subnormal or normal).
pub open spec fn f32_is_finite(b: u32) -> bool {
    f32_exp_field(b) != 0xff
}

/// The pattern denotes an infinity.
pub open spec fn f32_is_infinite(b: u32) -> bool {
    f32_exp_field(b) == 0xff && f32_frac_field(b) == 0
}

/// The pattern denotes a NaN.
pub open spec fn f32_is_nan(b: u32) -> bool {
    f32_exp_field(b) == 0xff && f32_frac_field(b) != 0
}

/// The significand of a finite binary32 pattern (with the hidden bit of
/// normal numbers).
pub open spec fn f32_significand(b: u32) -> nat {
    if f32_exp_field(b) == 0 {
        f32_frac_field(b) as nat
    } else {
        (f32_frac_field(b) + 0x80_0000) as nat
    }
}

/// The power of two that scales the significand of a finite binary32 pattern.
pub open spec fn f32_exponent(b: u32) -> int {
    if f32_exp_field(b) == 0 {
        -149
    } else {
        f32_exp_field(b) - 150
    }
}

/// The integer that a binary32 pattern denotes, if it denotes one
/// (both zeros denote `0`).
pub open spec fn f32_integral(b: u32) -> Option<int> {
    if f32_is_finite(b) {
        signed_option(f32_sign(b), dyadic_integer(f32_significand(b), f32_exponent(b)))
    } else {
        None
    }
}

// ---------------------------------------------------------------------------
// binary64: 1 sign bit, 11 exponent bits (bias 1023), 52 fraction bits
// ---------------------------------------------------------------------------

/// The biased exponent field of a binary64 pattern.
pub open spec fn f64_exp_field(b: u64) -> int {
    (b as int / 0x10_0000_0000_0000) % 0x800
}

/// The fraction field of a binary64 pattern.
pub open spec fn f64_frac_field(b: u64) -> int {
    b as int % 0x10_0000_0000_0000
}

/// The sign bit of a binary64 pattern.
pub open spec fn f64_sign(b: u64) -> bool {
    b >= 0x8000_0000_0000_0000
}

/// The pattern denotes a finite number (zero, subnormal or normal).
pub open spec fn f64_is_finite(b: u64) -> bool {
    f64_exp_field(b) != 0x7ff
}

/// The pattern denotes an infinity.
pub open spec fn f64_is_infinite(b: u64) -> bool {
    f64_exp_field(b) == 0x7ff && f64_frac_field(b) == 0
}

/// The pattern denotes a NaN.
pub open spec fn f64_is_nan(b: u64) -> bool {
    f64_exp_field(b) == 0x7ff && f64_frac_field(b) != 0
}

/// The significand of a finite binary64 pattern (with the hidden bit of
/// normal numbers).
pub open spec fn f64_significand(b: u64) -> nat {
    if f64_exp_field(b) == 0 {
        f64_frac_field(b) as nat
    } else {
        (f64_frac_field(b) + 0x10_0000_0000_0000) as nat
    }
}

/// The power of two that scales the significand of a finite binary64 pattern.
pub open spec fn f64_exponent(b: u64) -> int {
    if f64_exp_field(b) == 0 {
        -1074
    } else {
        f64_exp_field(b) - 1075
    }
}

/// The integer that a binary64 pattern denotes, if it denotes one
/// (both zeros denote `0`).
pub open spec fn f64_integral(b: u64) -> Option<int> {
    if f64_is_finite(b) {
        signed_option(f64_sign(b), dyadic_integer(f64_significand(b), f64_exponent(b)))
    } else {
        None
    }
}

// ---------------------------------------------------------------------------
// Executable decoding
// ---------------------------------------------------------------------------

/// `2^k` for `k < 64`.
fn pow2_u64(k: u32) -> (r: u64)
    requires
        k < 64,
    ensures
        r == pow2(k as nat),
{
    let mut r: u64 = 1;
    let mut i: u32 = 0;
    proof {
        lemma2_to64();
    }
    while i < k
        invariant
            i <= k < 64,
            r == pow2(i as nat),
        decreases k - i,
    {
        proof {
            lemma_pow2_unfold((i + 1) as nat);
            lemma_u64_pow2_no_overflow((i + 1) as nat);
        }
        r = r * 2;
        i = i + 1;
    }
    r
}

/// Zero times any power of two is the integer zero.
pub proof fn lemma_dyadic_zero(e: int)
    ensures
        dyadic_integer(0, e) == Some(0nat),
{
    if e >= 0 {
        lemma_mul_basics(pow2(e as nat) as int);
    } else {
        lemma_pow2_pos((-e) as nat);
        lemma_small_mod(0, pow2((-e) as nat));
        lemma_div_of0(pow2((-e) as nat) as int);
    }
}

/// The integer `±m * 2^e` when it is one and lies in `[lo, hi]`.
fn dyadic_integral_in(neg: bool, m: u64, e: i32, lo: i128, hi: i128) -> (r: Option<i128>)
    requires
        m < 0x20_0000_0000_0000,
        -1100 <= e <= 1100,
        -0x8000_0000_0000_0000 < lo,
        hi < 0x8000_0000_0000_0000,
    ensures
        opt_i128(r) == within(signed_option(neg, dyadic_integer(m as nat, e as int)), lo as int, hi as int),
{
    if m == 0 {
        proof {
            lemma_dyadic_zero(e as int);
        }
        return if lo <= 0 && 0 <= hi { Some(0) } else { None };
    }
    if e >= 0 {
        if e >= 63 {
            proof {
                lemma2_to64();
                lemma2_to64_rest();
                if e > 63 {
                    lemma_pow2_strictly_increases(63, e as nat);
                }
                let p = pow2(e as nat);
                assert(p >= 0x8000_0000_0000_0000);
                lemma_mul_increases(m as int, p as int);
                assert(m * p >= 0x8000_0000_0000_0000);
            }
            return None;
        }
        let p = pow2_u64(e as u32);
        proof {
            lemma2_to64();
            lemma2_to64_rest();
            if e < 62 {
                lemma_pow2_strictly_increases(e as nat, 62);
            }
            assert((m as int) * (p as int) < 0x8_0000_0000_0000_0000_0000_0000_0000) by (nonlinear_arith)
                requires
                    m < 0x20_0000_0000_0000,
                    p <= 0x4000_0000_0000_0000,
            ;
        }
        let k: u128 = (m as u128) * (p as u128);
        let v: i128 = if neg { -(k as i128) } else { k as i128 };
        if lo <= v && v <= hi { Some(v) } else { None }
    } else {
        let s: u32 = (-e) as u32;
        if s >= 64 {
            proof {
                lemma2_to64();
                lemma2_to64_rest();
                if s > 64 {
                    lemma_pow2_strictly_increases(64, s as nat);
                }
                lemma_small_mod(m as nat, pow2(s as nat));
            }
            return None;
        }
        let p = pow2_u64(s);
        proof {
            lemma_pow2_pos(s as nat);
        }
        if m % p != 0 {
            return None;
        }
        let k: u64 = m / p;
        proof {
            lemma_div_is_ordered_by_denominator(m as int, 1, p as int);
        }
        let v: i128 = if neg { -(k as i128) } else { k as i128 };
        if lo <= v && v <= hi { Some(v) } else { None }
    }
}

/// Sign, significand and exponent of a finite binary32 pattern.
fn f32_decode(b: u32) -> (r: (bool, u64, i32))
    requires
        f32_is_finite(b),
    ensures
        r.0 == f32_sign(b),
        r.1 as nat == f32_significand(b),
        r.2 as int == f32_exponent(b),
        r.1 < 0x100_0000,
{
    let e = (b / 0x80_0000) % 0x100;
    let f = b % 0x80_0000;
    let neg = b >= 0x8000_0000;
    if e == 0 {
        (neg, f as u64, -149)
    } else {
        (neg, (f + 0x80_0000) as u64, e as i32 - 150)
    }
}

/// Sign, significand and exponent of a finite binary64 pattern.
fn f64_decode(b: u64) -> (r: (bool, u64, i32))
    requires
        f64_is_finite(b),
    ensures
        r.0 == f64_sign(b),
        r.1 as nat == f64_significand(b),
        r.2 as int == f64_exponent(b),
        r.1 < 0x20_0000_0000_0000,
{
    let e = (b / 0x10_0000_0000_0000) % 0x800;
    let f = b % 0x10_0000_0000_0000;
    let neg = b >= 0x8000_0000_0000_0000;
    if e == 0 {
        (neg, f, -1074)
    } else {
        (neg, f + 0x10_0000_0000_0000, e as i32 - 1075)
    }
}

/// The integer that the binary32 pattern `b` denotes, when it denotes one
/// that lies in `[lo, hi]`.
pub(crate) fn f32_integral_in(b: u32, lo: i128, hi: i128) -> (r: Option<i128>)
    requires
        -0x8000_0000_0000_0000 < lo,
        hi < 0x8000_0000_0000_0000,
    ensures
        opt_i128(r) == within(f32_integral(b), lo as int, hi as int),
{
    if (b / 0x80_0000) % 0x100 == 0xff {
        return None;
    }
    let (neg, m, e) = f32_decode(b);
    dyadic_integral_in(neg, m, e, lo, hi)
}

/// The integer that the binary64 pattern `b` denotes, when it denotes one
/// that lies in `[lo, hi]`.
pub(crate) fn f64_integral_in(b: u64, lo: i128, hi: i128) -> (r: Option<i128>)
    requires
        -0x8000_0000_0000_0000 < lo,
        hi < 0x8000_0000_0000_0000,
    ensures
        opt_i128(r) == within(f64_integral(b), lo as int, hi as int),
{
    if (b / 0x10_0000_0000_0000) % 0x800 == 0x7ff {
        return None;
    }
    let (neg, m, e) = f64_decode(b);
    dyadic_integral_in(neg, m, e, lo, hi)
}

// ---------------------------------------------------------------------------
// Executable encoding
// ---------------------------------------------------------------------------

proof fn lemma_f32_fields(neg: bool, e: int, f: int, b: u32)
    requires
        0 <= e < 0x100,
        0 <= f < 0x80_0000,
        b as int == (if neg { 0x8000_0000int } else { 0int }) + e * 0x80_0000 + f,
    ensures
        f32_exp_field(b) == e,
        f32_frac_field(b) == f,
        f32_sign(b) == neg,
{
    let s: int = if neg { 1 } else { 0 };
    lemma_fundamental_div_mod_converse(b as int, 0x80_0000, s * 0x100 + e, f);
    lemma_fundamental_div_mod_converse(s * 0x100 + e, 0x100, s, e);
}

proof fn lemma_f64_fields(neg: bool, e: int, f: int, b: u64)
    requires
        0 <= e < 0x800,
        0 <= f < 0x10_0000_0000_0000,
        b as int == (if neg { 0x8000_0000_0000_0000int } else { 0int }) + e * 0x10_0000_0000_0000 + f,
    ensures
        f64_exp_field(b) == e,
        f64_frac_field(b) == f,
        f64_sign(b) == neg,
{
    let s: int = if neg { 1 } else { 0 };
    lemma_fundamental_div_mod_converse(b as int, 0x10_0000_0000_0000, s * 0x800 + e, f);
    lemma_fundamental_div_mod_converse(s * 0x800 + e, 0x800, s, e);
}

/// `m * 2^k` read back as a dyadic number with exponent `-k` gives `m`.
proof fn lemma_dyadic_scaled(mag: nat, k: nat)
    ensures
        dyadic_integer(mag * pow2(k), -(k as int)) == Some(mag),
{
    lemma_pow2_pos(k);
    if k == 0 {
        lemma2_to64();
        lemma_mul_basics(mag as int);
    } else {
        lemma_mod_multiples_basic(mag as int, pow2(k) as int);
        lemma_mul_is_commutative(mag as int, pow2(k) as int);
        lemma_div_multiples_vanish(mag as int, pow2(k) as int);
    }
}

/// Shifts a nonzero magnitude left by `k` places until it reaches
/// `[2^w, 2^(w+1))`, the range of normal significands.
fn normalize(mag: u64, w: u32) -> (r: (u64, u32))
    requires
        w <= 52,
        0 < mag,
        mag < pow2((w + 1) as nat),
    ensures
        pow2(w as nat) <= r.0 < pow2((w + 1) as nat),
        r.0 == mag * pow2(r.1 as nat),
        r.1 <= w,
{
    let top = pow2_u64(w);
    proof {
        lemma_pow2_unfold((w + 1) as nat);
        lemma2_to64();
        lemma2_to64_rest();
        if w < 52 {
            lemma_pow2_strictly_increases(w as nat, 52);
        }
    }
    let mut m = mag;
    let mut k: u32 = 0;
    while m < top
        invariant
            top == pow2(w as nat),
            pow2((w + 1) as nat) == 2 * top,
            top <= 0x10_0000_0000_0000,
            0 < m < 2 * top,
            m == mag * pow2(k as nat),
            pow2(k as nat) <= m,
            k <= w,
        decreases w - k,
    {
        proof {
            lemma_pow2_unfold((k + 1) as nat);
            lemma_mul_is_associative(mag as int, pow2(k as nat) as int, 2);
            if k >= w {
                if k > w {
                    lemma_pow2_strictly_increases(w as nat, k as nat);
                }
                assert(false);
            }
        }
        m = m * 2;
        k = k + 1;
    }
    (m, k)
}

/// The binary32 pattern of the number equal to the integer `v`; binary32
/// holds every integer below `2^24` in magnitude exactly. Zero gives `+0`.
pub(crate) fn f32_from_integer(v: i32) -> (b: u32)
    requires
        -0x100_0000 < v < 0x100_0000,
    ensures
        f32_is_finite(b),
        f32_integral(b) == Some(v as int),
        v == 0 ==> b == 0,
{
    if v == 0 {
        proof {
            lemma_f32_fields(false, 0, 0, 0);
            lemma_dyadic_zero(-149);
        }
        return 0;
    }
    let neg = v < 0;
    let mag: u64 = if neg { (-(v as i64)) as u64 } else { v as u64 };
    proof {
        lemma2_to64();
    }
    let (m, k) = normalize(mag, 23);
    let e: u32 = 150 - k;
    let sign: u32 = if neg { 0x8000_0000 } else { 0 };
    let b: u32 = sign + e * 0x80_0000 + (m - 0x80_0000) as u32;
    proof {
        lemma_f32_fields(neg, e as int, m - 0x80_0000, b);
        lemma_dyadic_scaled(mag as nat, k as nat);
    }
    b
}

/// The binary64 pattern of the number equal to the integer `v`; binary64
/// holds every integer below `2^53` in magnitude exactly. Zero gives `+0`.
pub(crate) fn f64_from_integer(v: i64) -> (b: u64)
    requires
        -0x20_0000_0000_0000 < v < 0x20_0000_0000_0000,
    ensures
        f64_is_finite(b),
        f64_integral(b) == Some(v as int),
        v == 0 ==> b == 0,
{
    if v == 0 {
        proof {
            lemma_f64_fields(false, 0, 0, 0);
            lemma_dyadic_zero(-1074);
        }
        return 0;
    }
    let neg = v < 0;
    let mag: u64 = if neg { (-v) as u64 } else { v as u64 };
    proof {
        lemma2_to64();
        lemma2_to64_rest();
    }
    let (m, k) = normalize(mag, 52);
    let e: u64 = 1075 - k as u64;
    let sign: u64 = if neg { 0x8000_0000_0000_0000 } else { 0 };
    let b: u64 = sign + e * 0x10_0000_0000_0000 + (m - 0x10_0000_0000_0000);
    proof {
        lemma_f64_fields(neg, e as int, m - 0x10_0000_0000_0000, b);
        lemma_dyadic_scaled(mag as nat, k as nat);
    }
    b
}

/// `r` is the binary64 widening of the binary32 number `b`: same sign,
/// the same value for finite numbers, an infinity for an infinity and a
/// NaN for a NaN.
pub open spec fn f64_widens(r: u64, b: u32) -> bool {
    &&& f64_sign(r) == f32_sign(b)
    &&& f32_is_finite(b) ==> f64_is_finite(r) && dyadic_same(
        f64_significand(r),
        f64_exponent(r),
        f32_significand(b),
        f32_exponent(b),
    )
    &&& f32_is_infinite(b) ==> f64_is_infinite(r)
    &&& f32_is_nan(b) ==> f64_is_nan(r)
}

/// The binary64 pattern of the binary32 number `b`, which binary64 holds
/// exactly. A NaN keeps its sign and payload bits and is made quiet; which
/// NaN comes out is not part of this contract.
pub fn f64_from_f32(b: u32) -> (r: u64)
    ensures
        f64_widens(r, b),
{
    let neg = b >= 0x8000_0000;
    let sign: u64 = if neg { 0x8000_0000_0000_0000 } else { 0 };
    let frac = b % 0x80_0000;
    if (b / 0x80_0000) % 0x100 == 0xff {
        if frac == 0 {
            let r: u64 = sign + 0x7ff * 0x10_0000_0000_0000;
            proof {
                lemma_f64_fields(neg, 0x7ff, 0, r);
            }
            return r;
        }
        let payload: u64 = frac as u64 * 0x2000_0000;
        let quiet: u64 = if payload < 0x8_0000_0000_0000 { payload + 0x8_0000_0000_0000 } else { payload };
        let r: u64 = sign + 0x7ff * 0x10_0000_0000_0000 + quiet;
        proof {
            lemma_f64_fields(neg, 0x7ff, quiet as int, r);
        }
        return r;
    }
    let (_, m, e) = f32_decode(b);
    if m == 0 {
        proof {
            lemma_f64_fields(neg, 0, 0, sign);
            lemma_mul_basics(pow2((e + 1074) as nat) as int);
        }
        return sign;
    }
    proof {
        lemma2_to64();
        lemma2_to64_rest();
        lemma_pow2_strictly_increases(24, 53);
    }
    let (m2, k) = normalize(m, 52);
    let biased: u64 = (e + 1075 - k as i32) as u64;
    let r: u64 = sign + biased * 0x10_0000_0000_0000 + (m2 - 0x10_0000_0000_0000);
    proof {
        lemma_f64_fields(neg, biased as int, m2 - 0x10_0000_0000_0000, r);
        lemma_mul_is_commutative(m as int, pow2(k as nat) as int);
    }
    r
}

// ---------------------------------------------------------------------------
// Canonical encodings and IEEE 754 equality
// ---------------------------------------------------------------------------

proof fn lemma_canonical_ordered(s1: nat, e1: int, s2: nat, e2: int, n: nat, emin: int)
    requires
        n > 0,
        (s1 < n && e1 == emin) || (n <= s1 < 2 * n && e1 >= emin),
        (s2 < n && e2 == emin) || (n <= s2 < 2 * n && e2 >= emin),
        e1 <= e2,
        s1 == s2 * pow2((e2 - e1) as nat),
    ensures
        s1 == s2,
        e1 == e2,
{
    let d = (e2 - e1) as nat;
    lemma2_to64();
    lemma_mul_basics(s2 as int);
    if d > 0 {
        lemma_pow2_strictly_increases(0, d);
        lemma_mul_inequality(2, pow2(d) as int, s2 as int);
        lemma_mul_is_commutative(pow2(d) as int, s2 as int);
        assert(false);
    }
}

/// Significand/exponent pairs in the canonical form of a binary format
/// (subnormal: `s < n` at the least exponent `emin`; normal: `n <= s < 2n`)
/// that denote the same number are the same pair.
proof fn lemma_canonical_pairs(s1: nat, e1: int, s2: nat, e2: int, n: nat, emin: int)
    requires
        n > 0,
        (s1 < n && e1 == emin) || (n <= s1 < 2 * n && e1 >= emin),
        (s2 < n && e2 == emin) || (n <= s2 < 2 * n && e2 >= emin),
        dyadic_same(s1, e1, s2, e2),
    ensures
        s1 == s2,
        e1 == e2,
{
    if e1 <= e2 {
        lemma_canonical_ordered(s1, e1, s2, e2, n, emin);
    } else {
        lemma_canonical_ordered(s2, e2, s1, e1, n, emin);
    }
}

proof fn lemma_f32_from_fields(b: u32)
    ensures
        b as int == (if f32_sign(b) { 0x8000_0000int } else { 0int }) + f32_exp_field(b) * 0x80_0000
            + f32_frac_field(b),
        b as int % 0x8000_0000 == f32_exp_field(b) * 0x80_0000 + f32_frac_field(b),
        f32_exp_field(b) == 0 ==> f32_significand(b) < 0x80_0000 && f32_exponent(b) == -149,
        f32_exp_field(b) != 0 ==> 0x80_0000 <= f32_significand(b) < 0x100_0000,
        f32_is_finite(b) && f32_exp_field(b) != 0 ==> f32_exponent(b) >= -149,
{
    let q = b as int / 0x80_0000;
    let s: int = if f32_sign(b) { 1 } else { 0 };
    lemma_fundamental_div_mod(b as int, 0x80_0000);
    lemma_fundamental_div_mod(q, 0x100);
    assert(q / 0x100 == s);
    lemma_fundamental_div_mod_converse(
        b as int,
        0x8000_0000,
        s,
        f32_exp_field(b) * 0x80_0000 + f32_frac_field(b),
    );
}

proof fn lemma_f64_from_fields(b: u64)
    ensures
        b as int == (if f64_sign(b) { 0x8000_0000_0000_0000int } else { 0int }) + f64_exp_field(b)
            * 0x10_0000_0000_0000 + f64_frac_field(b),
        b as int % 0x8000_0000_0000_0000 == f64_exp_field(b) * 0x10_0000_0000_0000 + f64_frac_field(b),
        f64_exp_field(b) == 0 ==> f64_significand(b) < 0x10_0000_0000_0000 && f64_exponent(b) == -1074,
        f64_exp_field(b) != 0 ==> 0x10_0000_0000_0000 <= f64_significand(b) < 0x20_0000_0000_0000,
        f64_is_finite(b) && f64_exp_field(b) != 0 ==> f64_exponent(b) >= -1074,
{
    let q = b as int / 0x10_0000_0000_0000;
    let s: int = if f64_sign(b) { 1 } else { 0 };
    lemma_fundamental_div_mod(b as int, 0x10_0000_0000_0000);
    lemma_fundamental_div_mod(q, 0x800);
    assert(q / 0x800 == s);
    lemma_fundamental_div_mod_converse(
        b as int,
        0x8000_0000_0000_0000,
        s,
        f64_exp_field(b) * 0x10_0000_0000_0000 + f64_frac_field(b),
    );
}

proof fn lemma_dyadic_same_zero(m1: nat, e1: int, m2: nat, e2: int)
    requires
        dyadic_same(m1, e1, m2, e2),
        m1 == 0 || m2 == 0,
    ensures
        m1 == 0,
        m2 == 0,
{
    if e1 <= e2 {
        lemma_pow2_pos((e2 - e1) as nat);
        lemma_mul_basics(pow2((e2 - e1) as nat) as int);
        if m2 > 0 {
            lemma_mul_strictly_positive(m2 as int, pow2((e2 - e1) as nat) as int);
        }
    } else {
        lemma_pow2_pos((e1 - e2) as nat);
        lemma_mul_basics(pow2((e1 - e2) as nat) as int);
        if m1 > 0 {
            lemma_mul_strictly_positive(m1 as int, pow2((e1 - e2) as nat) as int);
        }
    }
}

/// Every finite binary32 number has exactly one bit pattern per sign:
/// two finite patterns with the same sign and the same value are equal.
pub proof fn lemma_f32_canonical(a: u32, b: u32)
    requires
        f32_is_finite(a),
        f32_is_finite(b),
        f32_sign(a) == f32_sign(b),
        dyadic_same(f32_significand(a), f32_exponent(a), f32_significand(b), f32_exponent(b)),
    ensures
        a == b,
{
    lemma_f32_from_fields(a);
    lemma_f32_from_fields(b);
    if f32_significand(a) == 0 || f32_significand(b) == 0 {
        lemma_dyadic_same_zero(f32_significand(a), f32_exponent(a), f32_significand(b), f32_exponent(b));
    } else {
        lemma_canonical_pairs(
            f32_significand(a),
            f32_exponent(a),
            f32_significand(b),
            f32_exponent(b),
            0x80_0000,
            -149,
        );
    }
}

/// Every finite binary64 number has exactly one bit pattern per sign:
/// two finite patterns with the same sign and the same value are equal.
pub proof fn lemma_f64_canonical(a: u64, b: u64)
    requires
        f64_is_finite(a),
        f64_is_finite(b),
        f64_sign(a) == f64_sign(b),
        dyadic_same(f64_significand(a), f64_exponent(a), f64_significand(b), f64_exponent(b)),
    ensures
        a == b,
{
    lemma_f64_from_fields(a);
    lemma_f64_from_fields(b);
    if f64_significand(a) == 0 || f64_significand(b) == 0 {
        lemma_dyadic_same_zero(f64_significand(a), f64_exponent(a), f64_significand(b), f64_exponent(b));
    } else {
        lemma_canonical_pairs(
            f64_significand(a),
            f64_exponent(a),
            f64_significand(b),
            f64_exponent(b),
            0x10_0000_0000_0000,
            -1074,
        );
    }
}

/// IEEE 754 equality of binary32 numbers: a NaN equals nothing, an
/// infinity equals only itself, the two zeros are equal, and other finite
/// numbers are equal when their signs and values are.
pub open spec fn f32_equal(a: u32, b: u32) -> bool {
    if f32_is_nan(a) || f32_is_nan(b) {
        false
    } else if f32_is_infinite(a) || f32_is_infinite(b) {
        a == b
    } else if f32_significand(a) == 0 && f32_significand(b) == 0 {
        true
    } else {
        f32_sign(a) == f32_sign(b) && dyadic_same(
            f32_significand(a),
            f32_exponent(a),
            f32_significand(b),
            f32_exponent(b),
        )
    }
}

/// IEEE 754 equality of binary64 numbers: a NaN equals nothing, an
/// infinity equals only itself, the two zeros are equal, and other finite
/// numbers are equal when their signs and values are.
pub open spec fn f64_equal(a: u64, b: u64) -> bool {
    if f64_is_nan(a) || f64_is_nan(b) {
        false
    } else if f64_is_infinite(a) || f64_is_infinite(b) {
        a == b
    } else if f64_significand(a) == 0 && f64_significand(b) == 0 {
        true
    } else {
        f64_sign(a) == f64_sign(b) && dyadic_same(
            f64_significand(a),
            f64_exponent(a),
            f64_significand(b),
            f64_exponent(b),
        )
    }
}

/// Every dyadic number equals itself.
pub proof fn lemma_dyadic_same_refl(m: nat, e: int)
    ensures
        dyadic_same(m, e, m, e),
{
    lemma2_to64();
    lemma_mul_basics(m as int);
}

/// Equality of dyadic numbers does not depend on the order of the two.
pub proof fn lemma_dyadic_same_symmetric(m1: nat, e1: int, m2: nat, e2: int)
    ensures
        dyadic_same(m1, e1, m2, e2) == dyadic_same(m2, e2, m1, e1),
{
    lemma2_to64();
    lemma_mul_basics(m1 as int);
    lemma_mul_basics(m2 as int);
}

/// `==` on the binary32 numbers with bit patterns `a` and `b`.
pub fn f32_eq(a: u32, b: u32) -> (r: bool)
    ensures
        r == f32_equal(a, b),
{
    proof {
        lemma_f32_from_fields(a);
        lemma_f32_from_fields(b);
        lemma_dyadic_same_refl(f32_significand(a), f32_exponent(a));
    }
    let a_nan = (a / 0x80_0000) % 0x100 == 0xff && a % 0x80_0000 != 0;
    let b_nan = (b / 0x80_0000) % 0x100 == 0xff && b % 0x80_0000 != 0;
    if a_nan || b_nan {
        false
    } else if a == b {
        true
    } else if a % 0x8000_0000 == 0 && b % 0x8000_0000 == 0 {
        true
    } else {
        proof {
            if f32_is_finite(a) && f32_is_finite(b) && f32_sign(a) == f32_sign(b) && dyadic_same(
                f32_significand(a),
                f32_exponent(a),
                f32_significand(b),
                f32_exponent(b),
            ) {
                lemma_f32_canonical(a, b);
            }
        }
        false
    }
}

/// `==` on the binary64 numbers with bit patterns `a` and `b`.
pub fn f64_eq(a: u64, b: u64) -> (r: bool)
    ensures
        r == f64_equal(a, b),
{
    proof {
        lemma_f64_from_fields(a);
        lemma_f64_from_fields(b);
        lemma_dyadic_same_refl(f64_significand(a), f64_exponent(a));
    }
    let a_nan = (a / 0x10_0000_0000_0000) % 0x800 == 0x7ff && a % 0x10_0000_0000_0000 != 0;
    let b_nan = (b / 0x10_0000_0000_0000) % 0x800 == 0x7ff && b % 0x10_0000_0000_0000 != 0;
    if a_nan || b_nan {
        false
    } else if a == b {
        true
    } else if a % 0x8000_0000_0000_0000 == 0 && b % 0x8000_0000_0000_0000 == 0 {
        true
    } else {
        proof {
            if f64_is_finite(a) && f64_is_finite(b) && f64_sign(a) == f64_sign(b) && dyadic_same(
                f64_significand(a),
                f64_exponent(a),
                f64_significand(b),
                f64_exponent(b),
            ) {
                lemma_f64_canonical(a, b);
            }
        }
        false
    }
}

/// `x * 2^d` is divisible by `2^(d + k)` exactly when `x` is divisible by
/// `2^k`, and then the quotients agree.
proof fn lemma_scaled_division(x: nat, d: nat, k: nat)
    ensures
        ((x * pow2(d)) % pow2(d + k) == 0) == (x % pow2(k) == 0),
        (x * pow2(d)) / pow2(d + k) == x / pow2(k),
{
    let y = pow2(d) as int;
    let z = pow2(k) as int;
    let big = (x * pow2(d)) as int;
    lemma_pow2_pos(d);
    lemma_pow2_pos(k);
    lemma_pow2_adds(d, k);
    lemma_mul_is_commutative(x as int, y);
    lemma_div_multiples_vanish(x as int, y);
    lemma_mod_multiples_basic(x as int, y);
    lemma_breakdown(big, y, z);
    lemma_div_denominator(big, y, z);
    lemma_mod_pos_bound(x as int, z);
    if x % pow2(k) != 0 {
        lemma_mul_strictly_positive(y, (x % pow2(k)) as int);
    } else {
        lemma_mul_basics(y);
    }
}

proof fn lemma_dyadic_same_integer_ordered(m1: nat, e1: int, m2: nat, e2: int)
    requires
        e1 <= e2,
        m1 == m2 * pow2((e2 - e1) as nat),
    ensures
        dyadic_integer(m1, e1) == dyadic_integer(m2, e2),
{
    let d = (e2 - e1) as nat;
    if e1 >= 0 {
        lemma_pow2_adds(d, e1 as nat);
        lemma_mul_is_associative(m2 as int, pow2(d) as int, pow2(e1 as nat) as int);
    } else if e2 <= 0 {
        lemma_scaled_division(m2, d, (-e2) as nat);
        if e2 == 0 {
            lemma2_to64();
            lemma_mul_basics(m2 as int);
            lemma_small_mod(0, 1);
            lemma_fundamental_div_mod_converse(m2 as int, 1, m2 as int, 0);
        }
    } else {
        let a = pow2(e2 as nat) as int;
        let c = pow2((-e1) as nat) as int;
        lemma_pow2_pos((-e1) as nat);
        lemma_pow2_adds(e2 as nat, (-e1) as nat);
        lemma_mul_is_associative(m2 as int, a, c);
        lemma_mod_multiples_basic(m2 * a, c);
        lemma_mul_is_commutative(m2 * a, c);
        lemma_div_multiples_vanish(m2 * a, c);
    }
}

/// Equal dyadic numbers denote the same integer, or both denote none.
pub proof fn lemma_dyadic_same_integer(m1: nat, e1: int, m2: nat, e2: int)
    requires
        dyadic_same(m1, e1, m2, e2),
    ensures
        dyadic_integer(m1, e1) == dyadic_integer(m2, e2),
{
    if e1 <= e2 {
        lemma_dyadic_same_integer_ordered(m1, e1, m2, e2);
    } else {
        lemma_dyadic_same_integer_ordered(m2, e2, m1, e1);
    }
}

/// Widening a binary32 number to binary64 keeps the integer it denotes
/// (or that it denotes none).
pub proof fn lemma_widening_keeps_integral(r: u64, b: u32)
    requires
        f64_widens(r, b),
    ensures
        f64_integral(r) == f32_integral(b),
{
    if f32_is_finite(b) {
        lemma_dyadic_same_integer(f64_significand(r), f64_exponent(r), f32_significand(b), f32_exponent(b));
    }
}

proof fn lemma_same_integer_ordered(m1: nat, e1: int, m2: nat, e2: int, k: nat)
    requires
        e1 <= e2,
        dyadic_integer(m1, e1) == Some(k),
        dyadic_integer(m2, e2) == Some(k),
    ensures
        dyadic_same(m1, e1, m2, e2),
{
    let d = (e2 - e1) as nat;
    if e1 >= 0 {
        // m1 * 2^e1 == m2 * 2^d * 2^e1
        lemma_pow2_pos(e1 as nat);
        lemma_pow2_adds(d, e1 as nat);
        lemma_mul_is_associative(m2 as int, pow2(d) as int, pow2(e1 as nat) as int);
        lemma_mul_is_commutative(m1 as int, pow2(e1 as nat) as int);
        lemma_mul_is_commutative((m2 * pow2(d)) as int, pow2(e1 as nat) as int);
        lemma_mul_equality_converse(pow2(e1 as nat) as int, m1 as int, (m2 * pow2(d)) as int);
    } else {
        let s1 = (-e1) as nat;
        lemma_pow2_pos(s1);
        lemma_fundamental_div_mod(m1 as int, pow2(s1) as int);
        lemma_mul_is_commutative(pow2(s1) as int, k as int);
        // m1 == k * 2^s1
        if e2 >= 0 {
            // k == m2 * 2^e2, and 2^s1 * 2^e2 == 2^d
            lemma_pow2_adds(e2 as nat, s1);
            lemma_mul_is_associative(m2 as int, pow2(e2 as nat) as int, pow2(s1) as int);
        } else {
            let s2 = (-e2) as nat;
            lemma_pow2_pos(s2);
            lemma_fundamental_div_mod(m2 as int, pow2(s2) as int);
            lemma_mul_is_commutative(pow2(s2) as int, k as int);
            // m2 == k * 2^s2, and 2^s2 * 2^d == 2^s1
            lemma_pow2_adds(s2, d);
            lemma_mul_is_associative(k as int, pow2(s2) as int, pow2(d) as int);
        }
    }
}

/// Dyadic numbers that denote the same integer are equal.
proof fn lemma_same_integer(m1: nat, e1: int, m2: nat, e2: int, k: nat)
    requires
        dyadic_integer(m1, e1) == Some(k),
        dyadic_integer(m2, e2) == Some(k),
    ensures
        dyadic_same(m1, e1, m2, e2),
{
    if e1 <= e2 {
        lemma_same_integer_ordered(m1, e1, m2, e2, k);
    } else {
        lemma_same_integer_ordered(m2, e2, m1, e1, k);
        lemma_dyadic_same_symmetric(m2, e2, m1, e1);
    }
}

/// A nonzero integer has exactly one binary32 pattern: two patterns that
/// denote the same nonzero integer are equal.
pub proof fn lemma_f32_integer_pattern_unique(a: u32, b: u32, n: int)
    requires
        f32_integral(a) == Some(n),
        f32_integral(b) == Some(n),
        n != 0,
    ensures
        a == b,
{
    let k = dyadic_integer(f32_significand(a), f32_exponent(a)).unwrap();
    lemma_same_integer(f32_significand(a), f32_exponent(a), f32_significand(b), f32_exponent(b), k);
    lemma_f32_canonical(a, b);
}

/// A nonzero integer has exactly one binary64 pattern: two patterns that
/// denote the same nonzero integer are equal.
pub proof fn lemma_f64_integer_pattern_unique(a: u64, b: u64, n: int)
    requires
        f64_integral(a) == Some(n),
        f64_integral(b) == Some(n),
        n != 0,
    ensures
        a == b,
{
    let k = dyadic_integer(f64_significand(a), f64_exponent(a)).unwrap();
    lemma_same_integer(f64_significand(a), f64_exponent(a), f64_significand(b), f64_exponent(b), k);
    lemma_f64_canonical(a, b);
}

/// A binary64 pattern and a binary32 pattern that denote the same integer
/// (both `+0` when it is zero) are a widening of one another.
pub proof fn lemma_same_integer_widens(x: u64, y: u32, n: int)
    requires
        f64_integral(x) == Some(n),
        f32_integral(y) == Some(n),
        n == 0 ==> x == 0 && y == 0,
    ensures
        f64_widens(x, y),
{
    if n == 0 {
        lemma_f64_fields(false, 0, 0, 0);
        lemma_f32_fields(false, 0, 0, 0);
        lemma_mul_basics(pow2(925) as int);
    } else {
        let k = dyadic_integer(f64_significand(x), f64_exponent(x)).unwrap();
        lemma_same_integer(f64_significand(x), f64_exponent(x), f32_significand(y), f32_exponent(y), k);
    }
}

/// A dyadic number with a nonzero significand does not denote zero.
proof fn lemma_dyadic_nonzero(m: nat, e: int)
    requires
        m > 0,
        dyadic_integer(m, e) is Some,
    ensures
        dyadic_integer(m, e) != Some(0nat),
{
    if e >= 0 {
        lemma_pow2_pos(e as nat);
        lemma_mul_strictly_positive(m as int, pow2(e as nat) as int);
    } else {
        let p = pow2((-e) as nat) as int;
        lemma_pow2_pos((-e) as nat);
        lemma_fundamental_div_mod(m as int, p);
        if m as int / p == 0 {
            lemma_mul_basics(p);
        }
    }
}

/// Two signed dyadic numbers that denote the same integer are the same
/// number: both zero, or the same sign and value.
proof fn lemma_same_signed_integer(neg1: bool, m1: nat, e1: int, neg2: bool, m2: nat, e2: int, n: int)
    requires
        signed_option(neg1, dyadic_integer(m1, e1)) == Some(n),
        signed_option(neg2, dyadic_integer(m2, e2)) == Some(n),
    ensures
        (m1 == 0 && m2 == 0) || (neg1 == neg2 && dyadic_same(m1, e1, m2, e2)),
{
    let k1 = dyadic_integer(m1, e1).unwrap();
    let k2 = dyadic_integer(m2, e2).unwrap();
    if m1 > 0 {
        lemma_dyadic_nonzero(m1, e1);
    }
    if m2 > 0 {
        lemma_dyadic_nonzero(m2, e2);
    }
    if m1 == 0 {
        lemma_dyadic_zero(e1);
    }
    if m2 == 0 {
        lemma_dyadic_zero(e2);
    }
    if m1 > 0 && m2 > 0 {
        lemma_same_integer(m1, e1, m2, e2, k1);
    }
}

/// A binary32 number that denotes an integer equals (IEEE `==`) exactly
/// the binary32 numbers that denote the same integer; in particular the
/// two zeros are equal. A NaN equals nothing.
pub proof fn lemma_f32_equal_by_integral(a: u32, b: u32)
    ensures
        f32_is_nan(a) || f32_is_nan(b) ==> !f32_equal(a, b),
        f32_integral(a) is Some ==> (f32_equal(a, b) <==> f32_integral(b) == f32_integral(a)),
{
    if f32_integral(a) is Some {
        let n = f32_integral(a).unwrap();
        lemma_dyadic_zero(f32_exponent(a));
        lemma_dyadic_zero(f32_exponent(b));
        if f32_equal(a, b) && !(f32_significand(a) == 0 && f32_significand(b) == 0) {
            lemma_dyadic_same_integer(f32_significand(a), f32_exponent(a), f32_significand(b), f32_exponent(b));
        }
        if f32_integral(b) == Some(n) {
            lemma_same_signed_integer(
                f32_sign(a), f32_significand(a), f32_exponent(a),
                f32_sign(b), f32_significand(b), f32_exponent(b), n,
            );
        }
    }
}

/// A binary64 number that denotes an integer equals (IEEE `==`) exactly
/// the binary64 numbers that denote the same integer; in particular the
/// two zeros are equal. A NaN equals nothing.
pub proof fn lemma_f64_equal_by_integral(a: u64, b: u64)
    ensures
        f64_is_nan(a) || f64_is_nan(b) ==> !f64_equal(a, b),
        f64_integral(a) is Some ==> (f64_equal(a, b) <==> f64_integral(b) == f64_integral(a)),
{
    if f64_integral(a) is Some {
        let n = f64_integral(a).unwrap();
        lemma_dyadic_zero(f64_exponent(a));
        lemma_dyadic_zero(f64_exponent(b));
        if f64_equal(a, b) && !(f64_significand(a) == 0 && f64_significand(b) == 0) {
            lemma_dyadic_same_integer(f64_significand(a), f64_exponent(a), f64_significand(b), f64_exponent(b));
        }
        if f64_integral(b) == Some(n) {
            lemma_same_signed_integer(
                f64_sign(a), f64_significand(a), f64_exponent(a),
                f64_sign(b), f64_significand(b), f64_exponent(b), n,
            );
        }
    }
}

} // verus!
