//! Decimal and thousands-separated rendering of base-pair counts.

use vstd::prelude::*;
use vstd::string::*;

verus! {

/// The character of a decimal digit.
pub open spec fn digit_char(d: nat) -> char {
    if d == 0 { '0' }
    else if d == 1 { '1' }
    else if d == 2 { '2' }
    else if d == 3 { '3' }
    else if d == 4 { '4' }
    else if d == 5 { '5' }
    else if d == 6 { '6' }
    else if d == 7 { '7' }
    else if d == 8 { '8' }
    else { '9' }
}

/// Base-10 digits of `n`, most significant first, without leading zeros.
pub open spec fn decimal(n: nat) -> Seq<char>
    decreases n,
{
    if n < 10 {
        seq![digit_char(n)]
    } else {
        decimal(n / 10).push(digit_char(n % 10))
    }
}

/// The three digits of `m < 1000`, zero-padded.
pub open spec fn three_digits(m: nat) -> Seq<char> {
    seq![digit_char(m / 100), digit_char((m / 10) % 10), digit_char(m % 10)]
}

/// Base-10 digits of `n` with a comma between each group of three,
/// counted from the least significant digit.
pub open spec fn grouped(n: nat) -> Seq<char>
    decreases n,
{
    if n < 1000 {
        decimal(n)
    } else {
        grouped(n / 1000) + seq![','] + three_digits(n % 1000)
    }
}

fn digit_str(d: u64) -> (r: &'static str)
    requires
        d < 10,
    ensures
        r@ == seq![digit_char(d as nat)],
{
    proof {
        reveal_strlit("0");
        reveal_strlit("1");
        reveal_strlit("2");
        reveal_strlit("3");
        reveal_strlit("4");
        reveal_strlit("5");
        reveal_strlit("6");
        reveal_strlit("7");
        reveal_strlit("8");
        reveal_strlit("9");
    }
    if d == 0 {
        "0"
    } else if d == 1 {
        "1"
    } else if d == 2 {
        "2"
    } else if d == 3 {
        "3"
    } else if d == 4 {
        "4"
    } else if d == 5 {
        "5"
    } else if d == 6 {
        "6"
    } else if d == 7 {
        "7"
    } else if d == 8 {
        "8"
    } else {
        "9"
    }
}

/// Writes `n` in base 10.
pub fn decimal_string(n: u64) -> (r: String)
    ensures
        r@ == decimal(n as nat),
    decreases n,
{
    if n < 10 {
        String::from_str(digit_str(n))
    } else {
        let mut s = decimal_string(n / 10);
        s.append(digit_str(n % 10));
        s
    }
}

/// Writes `n` in base 10 with thousands separators.
pub fn group_thousands(n: u64) -> (r: String)
    ensures
        r@ == grouped(n as nat),
    decreases n,
{
    if n < 1000 {
        decimal_string(n)
    } else {
        let mut s = group_thousands(n / 1000);
        let m = n % 1000;
        s.append(",");
        s.append(digit_str(m / 100));
        s.append(digit_str((m / 10) % 10));
        s.append(digit_str(m % 10));
        proof {
            reveal_strlit(",");
            assert(s@ =~= grouped(n as nat));
        }
        s
    }
}

/// Pretty-prints a base-pair count: `1234567` becomes `1,234,567`.
pub fn format_bp_pretty(n: i32) -> (r: String)
    requires
        n >= 0,
    ensures
        r@ == grouped(n as nat),
{
    group_thousands(n as u64)
}

/// An axis label: the count followed by ` bp`.
pub fn format_axis_label_len(x: u64) -> (r: String)
    ensures
        r@ == decimal(x as nat) + " bp"@,
{
    let mut s = decimal_string(x);
    s.append(" bp");
    s
}

} // verus!
