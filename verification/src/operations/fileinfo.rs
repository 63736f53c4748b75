//! How a directory entry is shown: its size in human units and its icon.
use vstd::prelude::*;
use crate::operations::FileInfo;
use crate::text::{dec, digit, push_dec};

verus! {

/// `num / den` rounded to the nearest integer, ties to the even neighbour:
/// the rounding that fixed-precision float formatting applies to the exact
/// value of the float.
pub open spec fn round_half_even(num: nat, den: nat) -> nat
    recommends
        den > 0,
{
    let q = num / den;
    let r = num % den;
    if 2 * r > den || (2 * r == den && q % 2 == 1) {
        q + 1
    } else {
        q
    }
}

/// The power of two by which a `u64` must be scaled down so that it fits
/// the 53-bit significand of an `f64`.
pub open spec fn f64_scale(b: nat) -> nat
    decreases b,
{
    if b < 0x20_0000_0000_0000 {
        1
    } else {
        2 * f64_scale(b / 2)
    }
}

/// The value of `b as f64`: `b` rounded to 53 significant bits, to nearest,
/// ties to even.
pub open spec fn f64_of(b: nat) -> nat {
    round_half_even(b, f64_scale(b)) * f64_scale(b)
}

/// `{:.1}` of `q / 10`, for an integer `q` of tenths.
pub open spec fn tenths(q: nat) -> Seq<char> {
    dec(q / 10) + seq!['.', digit(q % 10)]
}

/// `{:.2}` of `q / 100`, for an integer `q` of hundredths.
pub open spec fn hundredths(q: nat) -> Seq<char> {
    dec(q / 100) + seq!['.', digit((q % 100) / 10), digit(q % 10)]
}

pub open spec fn unit(a: char, b: char) -> Seq<char> {
    seq![' ', a, b]
}

/// The text of a size in bytes: plain bytes below 1 KiB, otherwise KB, MB
/// or GB (binary multiples) with one, one and two decimals.
pub open spec fn size_text(bytes: nat) -> Seq<char> {
    if bytes < 1024 {
        dec(bytes) + seq![' ', 'B']
    } else if bytes < 1024 * 1024 {
        tenths(round_half_even(bytes * 10, 1024)) + unit('K', 'B')
    } else if bytes < 1024 * 1024 * 1024 {
        tenths(round_half_even(bytes * 10, 1024 * 1024)) + unit('M', 'B')
    } else {
        hundredths(round_half_even(f64_of(bytes) * 100, 1024 * 1024 * 1024)) + unit('G', 'B')
    }
}

fn round_half_even_exec(num: u128, den: u128) -> (r: u128)
    requires
        den > 0,
        num < 0x1_0000_0000_0000_0000_0000_0000,
        den < 0x1_0000_0000_0000_0000,
    ensures
        r == round_half_even(num as nat, den as nat),
        r <= num / den + 1,
{
    let q = num / den;
    let r = num % den;
    if 2 * r > den || (2 * r == den && q % 2 == 1) {
        q + 1
    } else {
        q
    }
}

/// The powers of two up to 2^11.
pub open spec fn is_small_scale(p: nat) -> bool {
    p == 1 || p == 2 || p == 4 || p == 8 || p == 16 || p == 32 || p == 64 || p == 128 || p == 256
        || p == 512 || p == 1024 || p == 2048
}

/// `b as f64`, as an exact integer.
fn f64_value(b: u64) -> (r: u128)
    ensures
        r == f64_of(b as nat),
        r <= 0x1_0000_0000_0000_0000,
{
    let mut x: u64 = b;
    let mut p: u128 = 1;
    while x >= 0x20_0000_0000_0000
        invariant
            0 < p,
            x == b as nat / p as nat,
            p * x <= b,
            is_small_scale(p as nat),
            f64_scale(b as nat) == p * f64_scale(x as nat),
        decreases x,
    {
        proof {
            vstd::arithmetic::div_mod::lemma_div_denominator(b as int, p as int, 2);
            assert((p * 2) * (x / 2) <= p * x) by (nonlinear_arith)
                requires
                    p > 0,
            ;
            assert(p * 0x20_0000_0000_0000 <= b) by (nonlinear_arith)
                requires
                    x >= 0x20_0000_0000_0000,
                    p > 0,
                    p * x <= b,
            ;
            assert(p * f64_scale(x as nat) == (p * 2) * f64_scale((x / 2) as nat)) by (
            nonlinear_arith)
                requires
                    f64_scale(x as nat) == 2 * f64_scale((x / 2) as nat),
            ;
        }
        x = x / 2;
        p = p * 2;
    }
    assert(f64_scale(x as nat) == 1);
    assert(f64_scale(b as nat) == p) by (nonlinear_arith)
        requires
            f64_scale(b as nat) == p * f64_scale(x as nat),
            f64_scale(x as nat) == 1,
    ;
    let q = round_half_even_exec(b as u128, p);
    proof {
        if p == 1 {
            assert(q == b);
        } else {
            assert(q * p <= 0x1_0000_0000_0000_0000) by (nonlinear_arith)
                requires
                    q <= 0x20_0000_0000_0000,
                    p <= 2048,
            ;
        }
    }
    q * p
}

fn push_tenths(out: &mut Vec<char>, q: u128)
    requires
        q < 0x1_0000_0000_0000_0000,
    ensures
        final(out)@ == old(out)@ + tenths(q as nat),
{
    push_dec(out, (q / 10) as u64);
    out.push('.');
    out.push(crate::text::digit_of((q % 10) as u64));
    assert(final(out)@ =~= old(out)@ + tenths(q as nat));
}

fn push_hundredths(out: &mut Vec<char>, q: u128)
    requires
        q < 0x1_0000_0000_0000_0000,
    ensures
        final(out)@ == old(out)@ + hundredths(q as nat),
{
    push_dec(out, (q / 100) as u64);
    out.push('.');
    out.push(crate::text::digit_of(((q % 100) / 10) as u64));
    out.push(crate::text::digit_of((q % 10) as u64));
    assert(final(out)@ =~= old(out)@ + hundredths(q as nat));
}

fn push_unit(out: &mut Vec<char>, a: char)
    ensures
        final(out)@ == old(out)@ + unit(a, 'B'),
{
    out.push(' ');
    out.push(a);
    out.push('B');
    assert(final(out)@ =~= old(out)@ + unit(a, 'B'));
}

impl FileInfo {
    /// The entry's size for display, e.g. `512 B`, `1.5 KB`, `3.0 MB`,
    /// `2.25 GB`; the decimals are those that float formatting of the size
    /// divided by 1024, 1024² or 1024³ prints.
    pub fn format_size(&self) -> (r: String)
        ensures
            r@ == size_text(self.size as nat),
    {
        let bytes = self.size;
        let mut out: Vec<char> = Vec::new();
        if bytes < 1024 {
            push_dec(&mut out, bytes);
            out.push(' ');
            out.push('B');
            assert(out@ =~= size_text(bytes as nat));
        } else if bytes < 1024 * 1024 {
            let q = round_half_even_exec(bytes as u128 * 10, 1024);
            push_tenths(&mut out, q);
            push_unit(&mut out, 'K');
            assert(out@ =~= size_text(bytes as nat));
        } else if bytes < 1024 * 1024 * 1024 {
            let q = round_half_even_exec(bytes as u128 * 10, 1024 * 1024);
            push_tenths(&mut out, q);
            push_unit(&mut out, 'M');
            assert(out@ =~= size_text(bytes as nat));
        } else {
            let v = f64_value(bytes);
            let q = round_half_even_exec(v * 100, 1024 * 1024 * 1024);
            push_hundredths(&mut out, q);
            push_unit(&mut out, 'G');
            assert(out@ =~= size_text(bytes as nat));
        }
        crate::text::string_of(&out)
    }

    /// The icon shown before the entry: a folder for directories, a page
    /// for files.
    pub fn icon(&self) -> (r: &'static str)
        ensures
            r@ == (if self.is_dir {
                "📁"@
            } else {
                "📄"@
            }),
    {
        if self.is_dir {
            "📁"
        } else {
            "📄"
        }
    }
}

} // verus!
