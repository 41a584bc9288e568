//! Human-readable formatting of byte counts and decimal numerals.
//!
//! Sizes are printed with binary (1024-based) units B, KB, MB, GB and TB:
//! plain bytes below one KB, and otherwise a value scaled to the unit with
//! exactly two decimal places, rounded to nearest with ties to even.

use vstd::prelude::*;
use vstd::arithmetic::mul::lemma_mul_inequality;
use vstd::arithmetic::div_mod::lemma_div_is_ordered;
use vstd::arithmetic::div_mod::lemma_div_is_ordered_by_denominator;
use vstd::string::StringExecFns;

verus! {

pub const KB: u64 = 1024;

pub const MB: u64 = 1024 * 1024;

pub const GB: u64 = 1024 * 1024 * 1024;

pub const TB: u64 = 1024 * 1024 * 1024 * 1024;

/// The character of one decimal digit.
pub open spec fn digit_char(d: nat) -> char {
    if d == 0 {
        '0'
    } else if d == 1 {
        '1'
    } else if d == 2 {
        '2'
    } else if d == 3 {
        '3'
    } else if d == 4 {
        '4'
    } else if d == 5 {
        '5'
    } else if d == 6 {
        '6'
    } else if d == 7 {
        '7'
    } else if d == 8 {
        '8'
    } else {
        '9'
    }
}

/// The decimal numeral of `n`, most significant digit first, no sign and
/// no leading zeros (a lone zero for zero).
pub open spec fn dec_str(n: nat) -> Seq<char>
    decreases n,
{
    if n < 10 {
        seq![digit_char(n)]
    } else {
        dec_str(n / 10).push(digit_char(n % 10))
    }
}

/// The number of hundredths in `size / div`, rounded to the nearest whole
/// hundredth; an exact half rounds to the even neighbour, as float
/// formatting with two decimal places does.
pub open spec fn hundredths_of(size: nat, div: nat) -> nat {
    let q = size * 100 / div;
    let r = (size * 100) % div;
    if 2 * r > div {
        q + 1
    } else if 2 * r < div {
        q
    } else if q % 2 == 0 {
        q
    } else {
        q + 1
    }
}

/// A value of `size` bytes scaled to the unit worth `div` bytes, written
/// with two decimal places, rounded to nearest (ties to even): whole part,
/// a point, hundredths.
pub open spec fn scaled_str(size: nat, div: nat) -> Seq<char> {
    let h = hundredths_of(size, div);
    dec_str(h / 100) + seq!['.', digit_char((h % 100) / 10), digit_char(h % 10)]
}

/// The printed form of a byte count: bytes below one KB, then the first
/// unit the count does not reach, scaled with two decimal places.
pub open spec fn format_size_spec(size: u64) -> Seq<char> {
    if size < KB {
        dec_str(size as nat) + seq![' ', 'B']
    } else if size < MB {
        scaled_str(size as nat, KB as nat) + seq![' ', 'K', 'B']
    } else if size < GB {
        scaled_str(size as nat, MB as nat) + seq![' ', 'M', 'B']
    } else if size < TB {
        scaled_str(size as nat, GB as nat) + seq![' ', 'G', 'B']
    } else {
        scaled_str(size as nat, TB as nat) + seq![' ', 'T', 'B']
    }
}

/// One decimal digit as text.
fn digit_str(d: u64) -> (r: &'static str)
    requires
        d < 10,
    ensures
        r@ == seq![digit_char(d as nat)],
{
    let r: &'static str = if d == 0 {
        "0"
    } else if d == 1 {
        "1"
    } else if d == 2 {
        "2"
    } else if d == 3 {
        "3"
    } else if d == 4 {
        "4"
    } else if d == 5 {
        "5"
    } else if d == 6 {
        "6"
    } else if d == 7 {
        "7"
    } else if d == 8 {
        "8"
    } else {
        "9"
    };
    proof {
        reveal_strlit("0");
        reveal_strlit("1");
        reveal_strlit("2");
        reveal_strlit("3");
        reveal_strlit("4");
        reveal_strlit("5");
        reveal_strlit("6");
        reveal_strlit("7");
        reveal_strlit("8");
        reveal_strlit("9");
        assert("0"@ =~= seq!['0']);
        assert("1"@ =~= seq!['1']);
        assert("2"@ =~= seq!['2']);
        assert("3"@ =~= seq!['3']);
        assert("4"@ =~= seq!['4']);
        assert("5"@ =~= seq!['5']);
        assert("6"@ =~= seq!['6']);
        assert("7"@ =~= seq!['7']);
        assert("8"@ =~= seq!['8']);
        assert("9"@ =~= seq!['9']);
    }
    r
}

/// The decimal numeral of `n` as an owned string.
pub fn u64_to_string(n: u64) -> (r: String)
    ensures
        r@ == dec_str(n as nat),
    decreases n,
{
    if n < 10 {
        String::from_str(digit_str(n))
    } else {
        let mut s = u64_to_string(n / 10);
        s.append(digit_str(n % 10));
        proof {
            assert(dec_str((n / 10) as nat) + seq![digit_char((n % 10) as nat)] =~= dec_str(
                (n / 10) as nat,
            ).push(digit_char((n % 10) as nat)));
        }
        s
    }
}

/// The rounded hundredths of `size / div`, exact in `u64` range.
fn scaled_hundredths(size: u64, div: u64) -> (h: u64)
    requires
        div >= 1024,
    ensures
        h as nat == hundredths_of(size as nat, div as nat),
{
    proof {
        lemma_mul_inequality(size as int, u64::MAX as int, 100);
        lemma_div_is_ordered(size as int * 100, u64::MAX as int * 100, div as int);
        lemma_div_is_ordered_by_denominator(u64::MAX as int * 100, 1024, div as int);
        assert(u64::MAX as int * 100 / 1024 + 1 < 0x1_0000_0000_0000_0000);
    }
    let num: u128 = (size as u128) * 100;
    let q: u128 = num / (div as u128);
    let r: u128 = num % (div as u128);
    let h128: u128 = if 2 * r > div as u128 {
        q + 1
    } else if 2 * r < div as u128 {
        q
    } else if q % 2 == 0 {
        q
    } else {
        q + 1
    };
    h128 as u64
}

/// Appends the scaled two-decimal form of `size` in the unit worth `div`
/// bytes to a fresh string.
fn scaled_string(size: u64, div: u64) -> (r: String)
    requires
        div >= 1024,
    ensures
        r@ == scaled_str(size as nat, div as nat),
{
    let h = scaled_hundredths(size, div);
    let mut s = u64_to_string(h / 100);
    s.append(".");
    s.append(digit_str((h % 100) / 10));
    s.append(digit_str(h % 10));
    proof {
        reveal_strlit(".");
        assert("."@ =~= seq!['.']);
        assert(s@ =~= scaled_str(size as nat, div as nat));
    }
    s
}

/// Formats a byte count for display: `0 B`, `1.50 KB`, `1.00 GB`, and so
/// on through TB, with two decimal places rounded to nearest.
pub fn format_size(size: u64) -> (r: String)
    ensures
        r@ == format_size_spec(size),
{
    proof {
        reveal_strlit(" B");
        reveal_strlit(" KB");
        reveal_strlit(" MB");
        reveal_strlit(" GB");
        reveal_strlit(" TB");
        assert(" B"@ =~= seq![' ', 'B']);
        assert(" KB"@ =~= seq![' ', 'K', 'B']);
        assert(" MB"@ =~= seq![' ', 'M', 'B']);
        assert(" GB"@ =~= seq![' ', 'G', 'B']);
        assert(" TB"@ =~= seq![' ', 'T', 'B']);
    }
    if size < KB {
        let mut s = u64_to_string(size);
        s.append(" B");
        s
    } else if size < MB {
        let mut s = scaled_string(size, KB);
        s.append(" KB");
        s
    } else if size < GB {
        let mut s = scaled_string(size, MB);
        s.append(" MB");
        s
    } else if size < TB {
        let mut s = scaled_string(size, GB);
        s.append(" GB");
        s
    } else {
        let mut s = scaled_string(size, TB);
        s.append(" TB");
        s
    }
}

} // verus!
