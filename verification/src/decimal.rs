//! Integers written in base ten, as they appear in a signed parameter string.

use vstd::prelude::*;
use vstd::string::StringExecFns;

verus! {

/// The character that writes the single digit `d`.
pub open spec fn digit_char(d: nat) -> char
    recommends
        d < 10,
{
    if d == 0 {
        '0'
    } else if d == 1 {
        '1'
    } else if d == 2 {
        '2'
    } else if d == 3 {
        '3'
    } else if d == 4 {
        '4'
    } else if d == 5 {
        '5'
    } else if d == 6 {
        '6'
    } else if d == 7 {
        '7'
    } else if d == 8 {
        '8'
    } else {
        '9'
    }
}

/// The digits of `n` in base ten, most significant first, without leading
/// zeros; zero is the single digit `0`.
pub open spec fn decimal_digits(n: nat) -> Seq<char>
    decreases n,
{
    if n < 10 {
        seq![digit_char(n)]
    } else {
        decimal_digits(n / 10).push(digit_char(n % 10))
    }
}

/// `n` in base ten, with a leading minus sign where it is negative.
pub open spec fn decimal_text(n: int) -> Seq<char> {
    if n < 0 {
        seq!['-'] + decimal_digits((-n) as nat)
    } else {
        decimal_digits(n as nat)
    }
}

/// The one-character string of a digit.
fn digit_str(d: u64) -> (s: &'static str)
    requires
        d < 10,
    ensures
        s@ == seq![digit_char(d as nat)],
{
    proof {
        reveal_strlit("0");
        reveal_strlit("1");
        reveal_strlit("2");
        reveal_strlit("3");
        reveal_strlit("4");
        reveal_strlit("5");
        reveal_strlit("6");
        reveal_strlit("7");
        reveal_strlit("8");
        reveal_strlit("9");
    }
    let s: &'static str = if d == 0 {
        "0"
    } else if d == 1 {
        "1"
    } else if d == 2 {
        "2"
    } else if d == 3 {
        "3"
    } else if d == 4 {
        "4"
    } else if d == 5 {
        "5"
    } else if d == 6 {
        "6"
    } else if d == 7 {
        "7"
    } else if d == 8 {
        "8"
    } else {
        "9"
    };
    assert(s@ =~= seq![digit_char(d as nat)]);
    s
}

/// Appends the digits of `n` to `out`.
fn append_digits(out: &mut String, n: u64)
    ensures
        final(out)@ == old(out)@ + decimal_digits(n as nat),
    decreases n,
{
    if n >= 10 {
        append_digits(out, n / 10);
    }
    out.append(digit_str(n % 10));
    assert(out@ =~= old(out)@ + decimal_digits(n as nat));
}

/// Writes an unsigned integer in base ten.
pub fn u64_to_decimal(n: u64) -> (text: String)
    ensures
        text@ == decimal_text(n as int),
{
    let mut text = String::new();
    append_digits(&mut text, n);
    assert(text@ =~= decimal_digits(n as nat));
    text
}

/// Writes a signed integer in base ten, with a minus sign where it is
/// negative.
pub fn i64_to_decimal(n: i64) -> (text: String)
    ensures
        text@ == decimal_text(n as int),
{
    let mut text = String::new();
    if n < 0 {
        proof {
            reveal_strlit("-");
        }
        text.append("-");
        // The magnitude of `i64::MIN` does not fit in `i64`: negate one less.
        let magnitude: u64 = (-(n + 1)) as u64 + 1;
        append_digits(&mut text, magnitude);
        assert(text@ =~= seq!['-'] + decimal_digits((-n) as nat));
    } else {
        append_digits(&mut text, n as u64);
        assert(text@ =~= decimal_digits(n as nat));
    }
    text
}

} // verus!
