//! Hexadecimal numbers and section-type classification.

use vstd::prelude::*;
use crate::text::{chars_of, same_text};

verus! {

/// The section types that take up address space but no bytes of the image.
pub open spec fn noload_name(name: Seq<char>) -> bool {
    name == ".bss"@ || name == ".sbss"@ || name == "COMMON"@ || name == ".scommon"@
}

/// The value of one hexadecimal digit, in either letter case.
pub open spec fn hex_digit_value(c: char) -> Option<int> {
    if '0' <= c <= '9' {
        Some(c as int - '0' as int)
    } else if 'a' <= c <= 'f' {
        Some(c as int - 'a' as int + 10)
    } else if 'A' <= c <= 'F' {
        Some(c as int - 'A' as int + 10)
    } else {
        None
    }
}

/// The number that a run of hexadecimal digits writes, most significant
/// digit first; `None` where a character is no digit.
pub open spec fn hex_digits_value(digits: Seq<char>) -> Option<int>
    decreases digits.len(),
{
    if digits.len() == 0 {
        Some(0)
    } else {
        match (hex_digits_value(digits.drop_last()), hex_digit_value(digits.last())) {
            (Some(high), Some(low)) => Some(high * 16 + low),
            _ => None,
        }
    }
}

/// `s` without every leading repetition of `0x`.
pub open spec fn without_hex_prefix(s: Seq<char>) -> Seq<char>
    decreases s.len(),
{
    if s.len() >= 2 && s[0] == '0' && s[1] == 'x' {
        without_hex_prefix(s.subrange(2, s.len() as int))
    } else {
        s
    }
}

/// The number that `src` writes in hexadecimal: any leading `0x` markers are
/// dropped, then an optional `+`, then at least one digit; the value must fit
/// 64 bits.
pub open spec fn hex_value(src: Seq<char>) -> Option<u64> {
    let body = without_hex_prefix(src);
    let digits = if body.len() > 0 && body[0] == '+' {
        body.drop_first()
    } else {
        body
    };
    hex_digits_u64(digits)
}

/// The number that a non-empty run of hexadecimal digits writes, where it
/// fits 64 bits.
pub open spec fn hex_digits_u64(digits: Seq<char>) -> Option<u64> {
    if digits.len() == 0 {
        None
    } else {
        match hex_digits_value(digits) {
            Some(v) => if v <= u64::MAX {
                Some(v as u64)
            } else {
                None
            },
            None => None,
        }
    }
}

proof fn lemma_hex_digits_prefix(digits: Seq<char>, k: int)
    requires
        0 <= k <= digits.len(),
    ensures
        hex_digits_value(digits.subrange(0, k)) is None ==> hex_digits_value(digits) is None,
        hex_digits_value(digits) is Some ==> 0 <= hex_digits_value(digits.subrange(0, k))->0
            <= hex_digits_value(digits)->0,
    decreases digits.len() - k,
{
    if k == digits.len() {
        assert(digits.subrange(0, k) =~= digits);
        lemma_hex_digits_nonnegative(digits);
    } else {
        assert(digits.drop_last().subrange(0, k) =~= digits.subrange(0, k));
        lemma_hex_digits_prefix(digits.drop_last(), k);
        lemma_hex_digits_nonnegative(digits.drop_last());
    }
}

proof fn lemma_hex_digits_nonnegative(digits: Seq<char>)
    ensures
        hex_digits_value(digits) is Some ==> hex_digits_value(digits)->0 >= 0,
    decreases digits.len(),
{
    if digits.len() > 0 {
        lemma_hex_digits_nonnegative(digits.drop_last());
    }
}

fn hex_digit(c: char) -> (r: Option<u64>)
    ensures
        match r {
            Some(d) => hex_digit_value(c) == Some(d as int) && d < 16,
            None => hex_digit_value(c) is None,
        },
{
    if '0' <= c && c <= '9' {
        Some((c as u64) - ('0' as u64))
    } else if 'a' <= c && c <= 'f' {
        Some((c as u64) - ('a' as u64) + 10)
    } else if 'A' <= c && c <= 'F' {
        Some((c as u64) - ('A' as u64) + 10)
    } else {
        None
    }
}

/// Reads a hexadecimal number, or reports that `src` writes none.
pub fn try_parse_hex(src: &str) -> (r: Option<u64>)
    ensures
        r == hex_value(src@),
{
    let chars = chars_of(src);
    let n: usize = chars.len();
    let mut start: usize = 0;
    assert(chars@.subrange(0, n as int) =~= chars@);
    while n - start >= 2 && chars[start] == '0' && chars[start + 1] == 'x'
        invariant
            n == chars@.len(),
            start <= n,
            without_hex_prefix(chars@) == without_hex_prefix(chars@.subrange(start as int, n as int)),
        decreases n - start,
    {
        assert(chars@.subrange(start as int, n as int).subrange(2, n - start)
            =~= chars@.subrange(start + 2, n as int));
        start += 2;
    }
    assert(chars@.subrange(0, n as int) =~= chars@);
    let ghost body = chars@.subrange(start as int, n as int);
    assert(without_hex_prefix(chars@) == body);
    if start < n && chars[start] == '+' {
        assert(body.drop_first() =~= chars@.subrange(start + 1, n as int));
        start += 1;
    }
    let ghost digits = chars@.subrange(start as int, n as int);
    if start == n {
        return None;
    }
    let mut acc: u64 = 0;
    let mut i: usize = start;
    while i < n
        invariant
            n == chars@.len(),
            start <= i <= n,
            digits == chars@.subrange(start as int, n as int),
            hex_value(src@) == hex_digits_u64(digits),
            hex_digits_value(digits.subrange(0, i - start)) == Some(acc as int),
        decreases n - i,
    {
        proof {
            lemma_hex_digits_prefix(digits, i - start + 1);
            assert(digits.subrange(0, i - start + 1).drop_last() =~= digits.subrange(
                0,
                i - start,
            ));
        }
        match hex_digit(chars[i]) {
            None => {
                return None;
            },
            Some(d) => {
                if acc > (u64::MAX - d) / 16 {
                    return None;
                }
                acc = acc * 16 + d;
            },
        }
        i += 1;
    }
    assert(digits.subrange(0, n - start) =~= digits);
    Some(acc)
}

/// Reads a hexadecimal number such as `0x80001000` or `1F`.
pub fn parse_hex(src: &str) -> (r: u64)
    requires
        hex_value(src@) is Some,
    ensures
        Some(r) == hex_value(src@),
{
    match try_parse_hex(src) {
        Some(v) => v,
        None => 0,
    }
}

/// Whether a section of this type takes up address space but no bytes of
/// the image.
pub fn is_noload_section(section_name: &str) -> (r: bool)
    ensures
        r == noload_name(section_name@),
{
    if same_text(section_name, ".bss") {
        return true;
    }
    if same_text(section_name, ".sbss") {
        return true;
    }
    if same_text(section_name, "COMMON") {
        return true;
    }
    if same_text(section_name, ".scommon") {
        return true;
    }
    false
}

} // verus!
