//! Exact integer model of the two floating-point steps that the size and
//! context renderings go through: the nearest binary64 value of a ratio of
//! integers, and the rendering of a value with one digit after the point
//! (nearest tenth, ties to even, as `{:.1}` writes it).
use vstd::prelude::*;
use crate::text::{digits, digit_char, push_digits, push_char, digit_to_char};

verus! {

/// Two to the power `k`.
pub open spec fn two_pow(k: nat) -> nat
    decreases k,
{
    if k == 0 {
        1
    } else {
        2 * two_pow((k - 1) as nat)
    }
}

/// `a / d` rounded to the nearest integer, ties to the even one.
pub open spec fn rne(a: nat, d: nat) -> nat {
    let q = a / d;
    let r = a % d;
    if 2 * r < d {
        q
    } else if 2 * r > d {
        q + 1
    } else if q % 2 == 0 {
        q
    } else {
        q + 1
    }
}

/// The exponent `e` with `2^e <= a / d < 2^(e+1)` (for `a >= d >= 1`).
pub open spec fn log2_ratio(a: nat, d: nat) -> nat
    decreases a,
{
    if d == 0 || a < 2 * d {
        0
    } else {
        1 + log2_ratio(a / 2, d)
    }
}

/// The binary64 number nearest to `a / d` (round to nearest, ties to even,
/// 53 significant bits), for `a >= d >= 1` in the normal range, given as a
/// fraction `(numerator, denominator)` whose denominator is a power of two.
pub open spec fn binary64_ratio(a: nat, d: nat) -> (nat, nat) {
    let e = log2_ratio(a, d);
    if e <= 52 {
        let s = two_pow((52 - e) as nat);
        (rne(a * s, d), s)
    } else {
        let g = two_pow((e - 52) as nat);
        (rne(a, d * g) * g, 1)
    }
}

/// The text `{:.1}` writes for the exact value `num / den`: the nearest
/// tenth (ties to even), as integer part, '.', and one decimal digit.
pub open spec fn one_decimal(num: nat, den: nat) -> Seq<char> {
    let t = rne(10 * num, den);
    digits(t / 10) + seq!['.', digit_char(t % 10)]
}

/// The powers of two that the renderings use.
pub proof fn lemma_two_pow_table()
    ensures
        two_pow(10) == 1024,
        two_pow(11) == 2048,
        two_pow(12) == 4096,
        two_pow(20) == 0x10_0000,
        two_pow(30) == 0x4000_0000,
        two_pow(40) == 0x100_0000_0000,
        two_pow(50) == 0x4_0000_0000_0000,
        two_pow(52) == 0x10_0000_0000_0000,
        two_pow(60) == 0x1000_0000_0000_0000,
        two_pow(64) == 0x1_0000_0000_0000_0000,
{
    reveal_with_fuel(two_pow, 13);
    lemma_two_pow_add(10, 10);
    lemma_two_pow_add(20, 10);
    lemma_two_pow_add(20, 20);
    lemma_two_pow_add(40, 10);
    lemma_two_pow_add(40, 12);
    lemma_two_pow_add(40, 20);
    lemma_two_pow_add(52, 12);
}

/// Powers of two are positive.
pub proof fn lemma_two_pow_pos(k: nat)
    ensures
        two_pow(k) >= 1,
    decreases k,
{
    if k > 0 {
        lemma_two_pow_pos((k - 1) as nat);
    }
}

/// Exponents add when powers of two multiply.
pub proof fn lemma_two_pow_add(a: nat, b: nat)
    ensures
        two_pow(a + b) == two_pow(a) * two_pow(b),
    decreases b,
{
    if b == 0 {
        assert(a + b == a);
        assert(two_pow(b) == 1);
    } else {
        let b1 = (b - 1) as nat;
        lemma_two_pow_add(a, b1);
        assert(a + b == (a + b1) + 1);
        assert(two_pow(a + b) == 2 * two_pow(a + b1));
        assert(two_pow(b) == 2 * two_pow(b1));
        let x = two_pow(a);
        let y = two_pow(b1);
        assert(x * (2 * y) == 2 * (x * y)) by (nonlinear_arith);
        assert(two_pow(a) * two_pow(b) == x * (2 * y));
    }
}

/// Powers of two grow with the exponent.
pub proof fn lemma_two_pow_mono(a: nat, b: nat)
    requires
        a <= b,
    ensures
        two_pow(a) <= two_pow(b),
    decreases b,
{
    if a < b {
        lemma_two_pow_mono(a, (b - 1) as nat);
        lemma_two_pow_pos((b - 1) as nat);
    }
}

/// `log2_ratio` brackets the ratio: `d * 2^e <= a < d * 2^(e+1)`.
pub proof fn lemma_log2_ratio_bounds(a: nat, d: nat)
    requires
        d >= 1,
        a >= d,
    ensures
        d * two_pow(log2_ratio(a, d)) <= a,
        a < d * two_pow(log2_ratio(a, d) + 1),
    decreases a,
{
    let e = log2_ratio(a, d);
    if a < 2 * d {
        assert(e == 0);
        reveal_with_fuel(two_pow, 2);
        assert(two_pow(0) == 1);
        assert(two_pow(1) == 2);
        assert(d * 1 == d);
        assert(d * 2 == 2 * d);
    } else {
        let h = a / 2;
        lemma_log2_ratio_bounds(h, d);
        let e1 = log2_ratio(h, d);
        assert(e == e1 + 1);
        let p = two_pow(e1);
        assert(two_pow(e1 + 1) == 2 * p);
        assert(two_pow(e1 + 2) == 2 * two_pow(e1 + 1));
        assert(d * p <= h);
        assert(h < d * two_pow(e1 + 1));
        assert(d * two_pow(e1 + 1) <= a) by (nonlinear_arith)
            requires
                d * p <= h,
                two_pow(e1 + 1) == 2 * p,
                h == a / 2,
        ;
        assert(a < d * two_pow(e1 + 2)) by (nonlinear_arith)
            requires
                h < d * two_pow(e1 + 1),
                two_pow(e1 + 2) == 2 * two_pow(e1 + 1),
                h == a / 2,
        ;
    }
}

/// Scaling numerator and denominator alike does not change the rounded quotient.
pub proof fn lemma_rne_scale(a: nat, d: nat, k: nat)
    requires
        d >= 1,
        k >= 1,
    ensures
        rne(a * k, d * k) == rne(a, d),
{
    let q = (a / d) as int;
    let r = (a % d) as int;
    vstd::arithmetic::div_mod::lemma_fundamental_div_mod(a as int, d as int);
    assert(a as int == d * q + r);
    assert((a * k) as int == q * (d * k) + r * k) by (nonlinear_arith)
        requires
            a as int == d * q + r,
    ;
    assert(0 <= r * k < d * k) by (nonlinear_arith)
        requires
            0 <= r < d,
            k >= 1,
    ;
    vstd::arithmetic::div_mod::lemma_fundamental_div_mod_converse(
        (a * k) as int,
        (d * k) as int,
        q,
        r * k,
    );
    assert((2 * r < d) == (2 * (r * k) < d * k)) by (nonlinear_arith)
        requires
            k >= 1,
    ;
    assert((2 * r > d) == (2 * (r * k) > d * k)) by (nonlinear_arith)
        requires
            k >= 1,
    ;
}

/// A whole number below 2^53 is a binary64 number: the nearest one is the
/// number itself.
pub proof fn lemma_binary64_of_small_integer(a: nat)
    requires
        1 <= a < 0x20_0000_0000_0000,
    ensures
        binary64_ratio(a, 1).1 >= 1,
        binary64_ratio(a, 1).0 == a * binary64_ratio(a, 1).1,
{
    let e = log2_ratio(a, 1);
    lemma_log2_ratio_bounds(a, 1);
    lemma_two_pow_table();
    lemma_two_pow_add(52, 1);
    reveal_with_fuel(two_pow, 2);
    if e > 52 {
        lemma_two_pow_mono(53, e);
        assert(false);
    }
    let s = two_pow((52 - e) as nat);
    lemma_two_pow_pos((52 - e) as nat);
    assert((a * s) / 1 == a * s);
    assert((a * s) % 1 == 0);
}

/// `2^k` for `k <= 64`.
pub fn two_pow_exec(k: u32) -> (r: u128)
    requires
        k <= 64,
    ensures
        r == two_pow(k as nat),
{
    let mut r: u128 = 1;
    let mut i: u32 = 0;
    while i < k
        invariant
            i <= k,
            k <= 64,
            r == two_pow(i as nat),
        decreases k - i,
    {
        proof {
            lemma_two_pow_mono((i + 1) as nat, 64);
            lemma_two_pow_table();
            assert(two_pow((i + 1) as nat) == 2 * two_pow(i as nat));
        }
        r = r * 2;
        i = i + 1;
    }
    r
}

/// `a / d` rounded to the nearest integer, ties to even.
pub fn rne_exec(a: u128, d: u128) -> (r: u128)
    requires
        d >= 1,
        a < u128::MAX,
    ensures
        r == rne(a as nat, d as nat),
        r <= a / d + 1,
{
    let q = a / d;
    let m = a % d;
    if m < d - m {
        q
    } else if m > d - m {
        q + 1
    } else if q % 2 == 0 {
        q
    } else {
        q + 1
    }
}

/// The exponent `e` with `2^e <= a / d < 2^(e+1)`.
pub fn log2_ratio_exec(a: u64, d: u64) -> (e: u32)
    requires
        1 <= d <= a,
    ensures
        e as nat == log2_ratio(a as nat, d as nat),
        e < 64,
{
    let mut x: u64 = a;
    let mut e: u32 = 0;
    let ghost p: nat = 1;
    while x / 2 >= d
        invariant
            1 <= d <= x,
            x <= a,
            e < 64,
            log2_ratio(a as nat, d as nat) == e + log2_ratio(x as nat, d as nat),
            p == two_pow(e as nat),
            p * x <= a,
        decreases x,
    {
        proof {
            lemma_two_pow_pos(e as nat);
            assert(x >= 2 * d);
            assert(log2_ratio(x as nat, d as nat) == 1 + log2_ratio((x / 2) as nat, d as nat));
            assert((p * 2) * (x / 2) <= p * x) by (nonlinear_arith)
                requires
                    p >= 1,
            ;
            lemma_two_pow_pos(e as nat);
            if e + 1 >= 64 {
                lemma_two_pow_mono(64, (e + 1) as nat);
                lemma_two_pow_table();
                assert((p * 2) * (x / 2) >= p * 2) by (nonlinear_arith)
                    requires
                        x / 2 >= 1,
                        p >= 1,
                ;
                assert(false);
            }
            p = p * 2;
        }
        x = x / 2;
        e = e + 1;
    }
    proof {
        assert(x < 2 * d);
    }
    e
}

/// The binary64 number nearest to `a / d`, as in [`binary64_ratio`].
pub fn binary64_ratio_exec(a: u64, d: u64) -> (r: (u128, u128))
    requires
        1 <= d <= a,
    ensures
        r.0 as nat == binary64_ratio(a as nat, d as nat).0,
        r.1 as nat == binary64_ratio(a as nat, d as nat).1,
        r.0 <= 0x10_0000_0000_0000_0000_0000,
        1 <= r.1 <= 0x10_0000_0000_0000,
{
    let e = log2_ratio_exec(a, d);
    proof {
        lemma_log2_ratio_bounds(a as nat, d as nat);
    }
    if e <= 52 {
        let s = two_pow_exec(52 - e);
        proof {
            lemma_two_pow_pos((52 - e) as nat);
            lemma_two_pow_mono((52 - e) as nat, 52);
            lemma_two_pow_table();
            assert((a as nat) * (s as nat) <= 0xFFFF_FFFF_FFFF_FFFF * 0x10_0000_0000_0000)
                by (nonlinear_arith)
                requires
                    a <= 0xFFFF_FFFF_FFFF_FFFF,
                    s <= 0x10_0000_0000_0000,
            ;
            assert(((a as int) * (s as int)) / (d as int) <= (a as int) * (s as int))
                by (nonlinear_arith)
                requires
                    d >= 1,
                    a >= 0,
                    s >= 0,
            ;
            lemma_two_pow_add((e + 1) as nat, (52 - e) as nat);
            assert((e + 1) as nat + (52 - e) as nat == 53);
            let t53 = two_pow(53);
            let te = two_pow((e + 1) as nat);
            assert(t53 == te * (s as nat));
            assert(((a as int) * (s as int)) / (d as int) < t53) by (nonlinear_arith)
                requires
                    (a as int) < (d as int) * te,
                    t53 == te * (s as int),
                    d >= 1,
                    s >= 1,
                    a >= 0,
            ;
            lemma_two_pow_add(52, 1);
            reveal_with_fuel(two_pow, 2);
        }
        let n = rne_exec(a as u128 * s, d as u128);
        (n, s)
    } else {
        let g = two_pow_exec(e - 52);
        proof {
            lemma_two_pow_pos((e - 52) as nat);
            lemma_two_pow_mono((e - 52) as nat, 11);
            lemma_two_pow_table();
            assert((d as nat) * (g as nat) <= 0xFFFF_FFFF_FFFF_FFFF * 2048) by (nonlinear_arith)
                requires
                    d <= 0xFFFF_FFFF_FFFF_FFFF,
                    g <= 2048,
            ;
            assert((d as int) * (g as int) >= 1) by (nonlinear_arith)
                requires
                    d >= 1,
                    g >= 1,
            ;
            assert((a as int) / ((d as int) * (g as int)) <= a as int) by (nonlinear_arith)
                requires
                    d >= 1,
                    g >= 1,
                    a >= 0,
            ;
        }
        let n = rne_exec(a as u128, d as u128 * g);
        proof {
            assert(n * g <= (0xFFFF_FFFF_FFFF_FFFFu128 + 1) * 2048) by (nonlinear_arith)
                requires
                    n <= 0xFFFF_FFFF_FFFF_FFFFu128 + 1,
                    g <= 2048,
            ;
        }
        (n * g, 1)
    }
}

/// Appends the text `{:.1}` writes for `num / den`.
pub fn push_one_decimal(out: &mut String, num: u128, den: u128)
    requires
        num <= 0x10_0000_0000_0000_0000_0000,
        den >= 1,
    ensures
        final(out)@ == old(out)@ + one_decimal(num as nat, den as nat),
{
    proof {
        assert((10 * (num as int)) / (den as int) <= 10 * (num as int)) by (nonlinear_arith)
            requires
                den >= 1,
                num >= 0,
        ;
    }
    let t = rne_exec(10 * num, den);
    push_digits(out, t / 10);
    push_char(out, '.');
    push_char(out, digit_to_char((t % 10) as u8));
    assert(out@ =~= old(out)@ + one_decimal(num as nat, den as nat));
}

} // verus!
