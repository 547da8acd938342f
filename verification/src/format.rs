//! Numbers written out as text.

use vstd::prelude::*;
use vstd::string::StringExecFns;

verus! {

/// The digit that writes `d` in a base up to sixteen, in capitals.
pub open spec fn digit_char(d: nat) -> char {
    if d == 0 {
        '0'
    } else if d == 1 {
        '1'
    } else if d == 2 {
        '2'
    } else if d == 3 {
        '3'
    } else if d == 4 {
        '4'
    } else if d == 5 {
        '5'
    } else if d == 6 {
        '6'
    } else if d == 7 {
        '7'
    } else if d == 8 {
        '8'
    } else if d == 9 {
        '9'
    } else if d == 10 {
        'A'
    } else if d == 11 {
        'B'
    } else if d == 12 {
        'C'
    } else if d == 13 {
        'D'
    } else if d == 14 {
        'E'
    } else {
        'F'
    }
}

/// The digits that write `v` in decimal, most significant first, without
/// leading zeros; zero is written with one digit.
pub open spec fn decimal_digits(v: nat) -> Seq<char>
    decreases v,
{
    if v < 10 {
        seq![digit_char(v)]
    } else {
        decimal_digits(v / 10).push(digit_char(v % 10))
    }
}

/// The digits that write `v` in hexadecimal, in capitals, most significant
/// first, without leading zeros; zero is written with one digit.
pub open spec fn hex_digits(v: nat) -> Seq<char>
    decreases v,
{
    if v < 16 {
        seq![digit_char(v)]
    } else {
        hex_digits(v / 16).push(digit_char(v % 16))
    }
}

/// The digits that write `v` in hexadecimal where `hex` is set, else in
/// decimal.
pub open spec fn digits_of(v: nat, hex: bool) -> Seq<char> {
    if hex {
        hex_digits(v)
    } else {
        decimal_digits(v)
    }
}

/// `count` zeros.
pub open spec fn zeros(count: nat) -> Seq<char> {
    Seq::new(count, |i: int| '0')
}

/// `digits` with zeros before them, as many as it takes to reach the width
/// `width`.
pub open spec fn zero_padded(digits: Seq<char>, width: nat) -> Seq<char> {
    if digits.len() >= width {
        digits
    } else {
        zeros((width - digits.len()) as nat) + digits
    }
}

/// `v` in decimal.
pub open spec fn decimal_text(v: u64) -> Seq<char> {
    decimal_digits(v as nat)
}

/// `v` in hexadecimal with capital letters, at least `width` digits wide.
pub open spec fn hex_text(v: u64, width: nat) -> Seq<char> {
    zero_padded(hex_digits(v as nat), width)
}

fn digit_str(d: u64) -> (r: &'static str)
    requires
        d < 16,
    ensures
        r@ == seq![digit_char(d as nat)],
{
    proof {
        reveal_strlit("0");
        reveal_strlit("1");
        reveal_strlit("2");
        reveal_strlit("3");
        reveal_strlit("4");
        reveal_strlit("5");
        reveal_strlit("6");
        reveal_strlit("7");
        reveal_strlit("8");
        reveal_strlit("9");
        reveal_strlit("A");
        reveal_strlit("B");
        reveal_strlit("C");
        reveal_strlit("D");
        reveal_strlit("E");
        reveal_strlit("F");
    }
    let r = if d == 0 {
        "0"
    } else if d == 1 {
        "1"
    } else if d == 2 {
        "2"
    } else if d == 3 {
        "3"
    } else if d == 4 {
        "4"
    } else if d == 5 {
        "5"
    } else if d == 6 {
        "6"
    } else if d == 7 {
        "7"
    } else if d == 8 {
        "8"
    } else if d == 9 {
        "9"
    } else if d == 10 {
        "A"
    } else if d == 11 {
        "B"
    } else if d == 12 {
        "C"
    } else if d == 13 {
        "D"
    } else if d == 14 {
        "E"
    } else {
        "F"
    };
    assert(r@ =~= seq![digit_char(d as nat)]);
    r
}

/// Writes `v` in hexadecimal where `hex` is set, else in decimal, at least
/// `width` digits wide.
pub fn to_digits(v: u64, hex: bool, width: usize) -> (r: String)
    ensures
        r@ == zero_padded(digits_of(v as nat, hex), width as nat),
{
    let mut rest: u64 = if hex {
        v / 16
    } else {
        v / 10
    };
    let first: u64 = if hex {
        v % 16
    } else {
        v % 10
    };
    let mut text: String = digit_str(first).to_owned();
    let mut length: u64 = 1;
    while rest > 0
        invariant
            digits_of(v as nat, hex) == if rest > 0 {
                digits_of(rest as nat, hex) + text@
            } else {
                text@
            },
            length == text@.len(),
            rest > 0 ==> length + rest <= v,
        decreases rest,
    {
        let low: u64 = if hex {
            rest % 16
        } else {
            rest % 10
        };
        let high: u64 = if hex {
            rest / 16
        } else {
            rest / 10
        };
        let mut longer: String = digit_str(low).to_owned();
        longer.append(text.as_str());
        proof {
            let digit = seq![digit_char(low as nat)];
            if high > 0 {
                assert(digits_of(high as nat, hex).push(digit_char(low as nat)) + text@
                    =~= digits_of(high as nat, hex) + (digit + text@));
            }
        }
        text = longer;
        rest = high;
        length += 1;
    }
    let ghost digits = text@;
    proof {
        reveal_strlit("0");
    }
    assert(text@ =~= zeros(0) + digits);
    while length < width as u64
        invariant
            length == text@.len(),
            length >= digits.len(),
            length == digits.len() || length <= width,
            text@ == zeros((length - digits.len()) as nat) + digits,
            "0"@ == seq!['0'],
        decreases width - length,
    {
        let mut longer: String = "0".to_owned();
        longer.append(text.as_str());
        text = longer;
        length += 1;
        assert(text@ =~= zeros((length - digits.len()) as nat) + digits);
    }
    assert(zeros(0) + digits =~= digits);
    assert(digits == digits_of(v as nat, hex));
    text
}

/// Writes `v` in decimal.
pub fn to_decimal(v: u64) -> (r: String)
    ensures
        r@ == decimal_text(v),
{
    to_digits(v, false, 0)
}

/// Writes `v` in hexadecimal with capital letters, at least `width` digits
/// wide.
pub fn to_hex(v: u64, width: usize) -> (r: String)
    ensures
        r@ == hex_text(v, width as nat),
{
    to_digits(v, true, width)
}

} // verus!
