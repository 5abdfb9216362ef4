//! Byte counts rendered for display: plain bytes below one KiB, otherwise
//! the value scaled by the matching power of 1024 with exactly two fraction
//! digits, a fixed decimal point, and the unit appended.

use vstd::prelude::*;
use vstd::arithmetic::div_mod::lemma_div_is_ordered;
use crate::strutil::{spec_dec_nat, digit_char, u64_to_chars, chars_to_string};

verus! {

pub const BYTES_PER_KIB: u64 = 1024;

pub const BYTES_PER_MIB: u64 = 1048576;

pub const BYTES_PER_GIB: u64 = 1073741824;

/// Hundredths of `n / d`, rounded to nearest with ties to even.
pub open spec fn rounded_hundredths(n: int, d: int) -> int {
    let q = (100 * n) / d;
    let r = (100 * n) % d;
    if 2 * r > d {
        q + 1
    } else if 2 * r < d {
        q
    } else if q % 2 == 1 {
        q + 1
    } else {
        q
    }
}

pub open spec fn spec_two_digits(f: int) -> Seq<char> {
    seq![digit_char(f / 10), digit_char(f % 10)]
}

/// `n / d` written with two fraction digits.
pub open spec fn spec_scaled_2dec(n: int, d: int) -> Seq<char> {
    let h = rounded_hundredths(n, d);
    spec_dec_nat((h / 100) as nat) + seq!['.'] + spec_two_digits(h % 100)
}

/// What `format_file_size` returns for a byte count.
pub open spec fn spec_format_file_size(n: int) -> Seq<char> {
    if n < 1024 {
        spec_dec_nat(n as nat) + seq![' ', 'B']
    } else if n < 1048576 {
        spec_scaled_2dec(n, 1024) + seq![' ', 'K', 'B']
    } else if n < 1073741824 {
        spec_scaled_2dec(n, 1048576) + seq![' ', 'M', 'B']
    } else {
        spec_scaled_2dec(n, 1073741824) + seq![' ', 'G', 'B']
    }
}

/// The digits of `n / d` with two decimal places.
fn scaled_2dec(n: u64, d: u64) -> (v: Vec<char>)
    requires
        1024 <= d,
    ensures
        v@ == spec_scaled_2dec(n as int, d as int),
{
    let num: u128 = (n as u128) * 100;
    let q: u128 = num / (d as u128);
    let r: u128 = num % (d as u128);
    proof {
        lemma_div_is_ordered(100 * (n as int), 100 * (u64::MAX as int), d as int);
        lemma_div_bound_by_smallest_denominator(100 * (u64::MAX as int), d as int);
    }
    let h128: u128 = if 2 * r > (d as u128) {
        q + 1
    } else if 2 * r < (d as u128) {
        q
    } else if q % 2 == 1 {
        q + 1
    } else {
        q
    };
    assert(h128 == rounded_hundredths(n as int, d as int));
    let h: u64 = h128 as u64;
    let mut v: Vec<char> = u64_to_chars(h / 100);
    v.push('.');
    let frac: u64 = h % 100;
    let tens: u64 = frac / 10;
    let ones: u64 = frac % 10;
    v.push((48u8 + (tens as u8)) as char);
    v.push((48u8 + (ones as u8)) as char);
    assert(v@ =~= spec_dec_nat((h as int / 100) as nat) + seq!['.'] + spec_two_digits(
        h as int % 100,
    ));
    v
}

proof fn lemma_div_bound_by_smallest_denominator(x: int, d: int)
    requires
        x >= 0,
        d >= 1024,
    ensures
        x / d <= x / 1024,
{
    vstd::arithmetic::div_mod::lemma_div_is_ordered_by_denominator(x, 1024, d);
}

/// Renders a byte count for display: `B` below one KiB, then `KB`, `MB` or
/// `GB` with two fraction digits.
pub fn format_file_size(size: u64) -> (r: String)
    ensures
        r@ == spec_format_file_size(size as int),
{
    if size < BYTES_PER_KIB {
        let mut v: Vec<char> = u64_to_chars(size);
        v.push(' ');
        v.push('B');
        assert(v@ =~= spec_dec_nat(size as nat) + seq![' ', 'B']);
        chars_to_string(&v)
    } else if size < BYTES_PER_MIB {
        let mut v: Vec<char> = scaled_2dec(size, BYTES_PER_KIB);
        v.push(' ');
        v.push('K');
        v.push('B');
        assert(v@ =~= spec_scaled_2dec(size as int, 1024) + seq![' ', 'K', 'B']);
        chars_to_string(&v)
    } else if size < BYTES_PER_GIB {
        let mut v: Vec<char> = scaled_2dec(size, BYTES_PER_MIB);
        v.push(' ');
        v.push('M');
        v.push('B');
        assert(v@ =~= spec_scaled_2dec(size as int, 1048576) + seq![' ', 'M', 'B']);
        chars_to_string(&v)
    } else {
        let mut v: Vec<char> = scaled_2dec(size, BYTES_PER_GIB);
        v.push(' ');
        v.push('G');
        v.push('B');
        assert(v@ =~= spec_scaled_2dec(size as int, 1073741824) + seq![' ', 'G', 'B']);
        chars_to_string(&v)
    }
}

} // verus!
