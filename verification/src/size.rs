//! Human-readable byte sizes, as the command-line report prints them.

use vstd::prelude::*;
use crate::text::{decimal, push_decimal};

verus! {

/// Below 2^53 every integer is a double exactly.
pub const F64_EXACT_BOUND: u64 = 9007199254740992;

/// The distance between consecutive doubles around the integer `n`: 1 below
/// 2^53, doubling with every further binary digit.
pub open spec fn f64_spacing(n: nat) -> nat
    decreases n,
{
    if n < 9007199254740992 {
        1
    } else {
        2 * f64_spacing(n / 2)
    }
}

/// `num / den` rounded to the nearest integer, halves to the even one.
pub open spec fn round_half_even(num: nat, den: nat) -> nat {
    let q = num / den;
    let r = num % den;
    if 2 * r > den || (2 * r == den && q % 2 == 1) {
        q + 1
    } else {
        q
    }
}

/// The integer value of the double nearest to `n` (halfway cases to the
/// even significand), which is what `n as f64` gives.
pub open spec fn nearest_f64(n: nat) -> nat {
    round_half_even(n, f64_spacing(n)) * f64_spacing(n)
}

/// A number of tenths written with one decimal.
pub open spec fn one_decimal(tenths: nat) -> Seq<char> {
    decimal(tenths / 10) + "."@ + decimal(tenths % 10)
}

/// How the command-line report writes a size of `bytes` bytes: in bytes
/// below 1024, else in KB below 1024 * 1024, else in MB; KB and MB with one
/// decimal, rounded to nearest with halves to even.
pub open spec fn size_text(bytes: nat) -> Seq<char> {
    if bytes < 1024 {
        decimal(bytes) + " B"@
    } else if bytes < 1048576 {
        one_decimal(round_half_even(bytes * 10, 1024)) + " KB"@
    } else {
        one_decimal(round_half_even(nearest_f64(bytes) * 10, 1048576)) + " MB"@
    }
}

fn round_half_even_exec(num: u128, den: u128) -> (r: u128)
    requires
        0 < den < 0x1_0000_0000_0000_0000_0000,
        num < 0x1_0000_0000_0000_0000_0000,
    ensures
        r == round_half_even(num as nat, den as nat),
{
    let q = num / den;
    let r = num % den;
    if 2 * r > den || (2 * r == den && q % 2 == 1) {
        q + 1
    } else {
        q
    }
}

/// The integer value of `n as f64`.
fn nearest_f64_exec(n: u64) -> (r: u128)
    ensures
        r == nearest_f64(n as nat),
        r <= 0x1_0000_0000_0000_1000,
{
    let mut m: u64 = n;
    let mut s: u64 = 1;
    while m >= F64_EXACT_BOUND
        invariant
            0 < s < 4096,
            m == n / s,
            s * m <= n,
            f64_spacing(n as nat) == s * f64_spacing(m as nat),
        decreases m,
    {
        proof {
            assert(s < 2048) by (nonlinear_arith)
                requires
                    s * m <= n,
                    m >= 9007199254740992,
                    n <= 0xffff_ffff_ffff_ffff,
            ;
            vstd::arithmetic::div_mod::lemma_div_denominator(n as int, s as int, 2);
            assert(f64_spacing(m as nat) == 2 * f64_spacing((m / 2) as nat));
            assert(s * (2 * f64_spacing((m / 2) as nat)) == (s * 2) * f64_spacing((m / 2) as nat)) by (nonlinear_arith);
            assert((s * 2) * (m / 2) <= s * m) by (nonlinear_arith)
                requires
                    s > 0,
            ;
        }
        m = m / 2;
        s = s * 2;
    }
    assert(f64_spacing(m as nat) == 1);
    assert(s * f64_spacing(m as nat) == s * 1);
    assert(f64_spacing(n as nat) == s);
    let q = round_half_even_exec(n as u128, s as u128);
    proof {
        assert(q <= n / s + 1);
        assert(q * s <= 0x1_0000_0000_0000_1000) by (nonlinear_arith)
            requires
                q <= n / s + 1,
                s > 0,
                s < 4096,
                n <= 0xffff_ffff_ffff_ffff,
                s * (n / s) <= n,
        ;
    }
    q * (s as u128)
}

/// Appends a number of tenths written with one decimal.
fn push_one_decimal(out: &mut String, tenths: u64)
    ensures
        final(out)@ == old(out)@ + one_decimal(tenths as nat),
{
    push_decimal(out, tenths / 10);
    out.append(".");
    push_decimal(out, tenths % 10);
    assert(final(out)@ =~= old(out)@ + one_decimal(tenths as nat));
}

/// A size in bytes as the command-line report prints it, such as `512 B`,
/// `1.5 KB` or `2.0 MB`.
pub fn format_size(bytes: usize) -> (r: String)
    ensures
        r@ == size_text(bytes as nat),
{
    let b: u64 = bytes as u64;
    if b < 1024 {
        let mut r = String::new();
        push_decimal(&mut r, b);
        r.append(" B");
        assert(r@ =~= size_text(bytes as nat));
        r
    } else if b < 1048576 {
        let tenths = round_half_even_exec((b as u128) * 10, 1024);
        assert(tenths <= 10240);
        let mut r = String::new();
        push_one_decimal(&mut r, tenths as u64);
        r.append(" KB");
        assert(r@ =~= size_text(bytes as nat));
        r
    } else {
        let v = nearest_f64_exec(b);
        let tenths = round_half_even_exec(v * 10, 1048576);
        assert(tenths <= 0x1_0000_0000_0000_1000 * 10 / 1048576 + 1);
        let mut r = String::new();
        push_one_decimal(&mut r, tenths as u64);
        r.append(" MB");
        assert(r@ =~= size_text(bytes as nat));
        r
    }
}

} // verus!
