//! Unsigned decimal numbers read from command-line text.

use vstd::prelude::*;

verus! {

/// Why a text is not an unsigned number of the wanted width.
#[derive(Clone, Copy, Debug, PartialEq, Eq)]
pub enum NumberError {
    /// The text is empty.
    Empty,
    /// A character other than an ASCII digit (after an optional leading `+`).
    InvalidDigit,
    /// The digits spell a number above the largest value of the type.
    PosOverflow,
}

pub open spec fn is_digit(c: char) -> bool {
    '0' <= c && c <= '9'
}

pub open spec fn digit_value(c: char) -> nat {
    (c as int - '0' as int) as nat
}

/// Reads `d` from left to right; the first character that is not a digit, or
/// that takes the value past `max`, decides the error.
pub open spec fn scan_digits(d: Seq<char>, max: nat) -> Result<nat, NumberError>
    decreases d.len(),
{
    if d.len() == 0 {
        Ok(0)
    } else {
        match scan_digits(d.drop_last(), max) {
            Err(e) => Err(e),
            Ok(v) => if !is_digit(d.last()) {
                Err(NumberError::InvalidDigit)
            } else if v * 10 + digit_value(d.last()) > max {
                Err(NumberError::PosOverflow)
            } else {
                Ok(v * 10 + digit_value(d.last()))
            },
        }
    }
}

/// The number that `s` spells: an optional `+` followed by at least one
/// decimal digit, with a value of at most `max`.
pub open spec fn unsigned_of(s: Seq<char>, max: nat) -> Result<nat, NumberError> {
    if s.len() == 0 {
        Err(NumberError::Empty)
    } else if s[0] == '+' {
        if s.len() == 1 {
            Err(NumberError::InvalidDigit)
        } else {
            scan_digits(s.drop_first(), max)
        }
    } else {
        scan_digits(s, max)
    }
}

/// What reading `s` as a number of at most `max` gives, as an executable result.
pub open spec fn parsed(s: Seq<char>, max: nat, r: Result<u32, NumberError>) -> bool {
    match unsigned_of(s, max) {
        Ok(v) => r == Ok::<u32, NumberError>(v as u32),
        Err(e) => r == Err::<u32, NumberError>(e),
    }
}

proof fn lemma_scan_bounded(d: Seq<char>, max: nat)
    ensures
        scan_digits(d, max) is Ok ==> scan_digits(d, max)->Ok_0 <= max,
    decreases d.len(),
{
    if d.len() > 0 {
        lemma_scan_bounded(d.drop_last(), max);
    }
}

fn parse_bounded(s: &str, max: u32) -> (r: Result<u32, NumberError>)
    ensures
        parsed(s@, max as nat, r),
{
    let n = s.unicode_len();
    if n == 0 {
        return Err(NumberError::Empty);
    }
    let mut start: usize = 0;
    if s.get_char(0) == '+' {
        if n == 1 {
            return Err(NumberError::InvalidDigit);
        }
        start = 1;
    }
    let ghost digits = if start == 1 { s@.drop_first() } else { s@ };
    assert(digits =~= s@.subrange(start as int, n as int));
    assert(unsigned_of(s@, max as nat) == scan_digits(digits, max as nat));
    let mut acc: u32 = 0;
    let mut i: usize = start;
    while i < n
        invariant
            start <= i <= n,
            n == s@.len(),
            digits =~= s@.subrange(start as int, n as int),
            unsigned_of(s@, max as nat) == scan_digits(digits, max as nat),
            scan_digits(s@.subrange(start as int, i as int), max as nat) == Ok::<nat, NumberError>(
                acc as nat,
            ),
        decreases n - i,
    {
        let c = s.get_char(i);
        let ghost prefix = s@.subrange(start as int, i as int + 1);
        assert(prefix.drop_last() =~= s@.subrange(start as int, i as int));
        assert(prefix.last() == c);
        if c < '0' || c > '9' {
            proof {
                assert(scan_digits(prefix, max as nat) == Err::<nat, NumberError>(
                    NumberError::InvalidDigit,
                ));
                lemma_scan_prefix_err(digits, (i - start) as int, max as nat);
                assert(digits.subrange(0, (i - start) as int + 1) =~= prefix);
            }
            return Err(NumberError::InvalidDigit);
        }
        let d: u32 = (c as u32) - ('0' as u32);
        if d > max || acc > (max - d) / 10 {
            proof {
                if d <= max {
                    assert(acc * 10 + d > max) by (nonlinear_arith)
                        requires
                            acc > (max - d) / 10,
                            d <= max,
                    ;
                }
                assert(scan_digits(prefix, max as nat) == Err::<nat, NumberError>(
                    NumberError::PosOverflow,
                ));
                lemma_scan_prefix_err(digits, (i - start) as int, max as nat);
                assert(digits.subrange(0, (i - start) as int + 1) =~= prefix);
            }
            return Err(NumberError::PosOverflow);
        }
        assert(acc * 10 + d <= max) by (nonlinear_arith)
            requires
                acc <= (max - d) / 10,
                d <= max,
        ;
        acc = acc * 10 + d;
        i = i + 1;
    }
    assert(s@.subrange(start as int, n as int) =~= digits);
    Ok(acc)
}

/// Once a prefix of `d` fails, the whole of `d` fails the same way.
proof fn lemma_scan_prefix_err(d: Seq<char>, k: int, max: nat)
    requires
        0 <= k < d.len(),
    ensures
        scan_digits(d.subrange(0, k + 1), max) is Err ==> scan_digits(d, max) == scan_digits(
            d.subrange(0, k + 1),
            max,
        ),
    decreases d.len(),
{
    if k + 1 < d.len() {
        assert(d.drop_last().subrange(0, k + 1) =~= d.subrange(0, k + 1));
        lemma_scan_prefix_err(d.drop_last(), k, max);
    } else {
        assert(d.subrange(0, k + 1) =~= d);
    }
}

/// A character that is no digit, anywhere among the digits, makes them fail.
pub proof fn lemma_non_digit_fails(d: Seq<char>, k: int, max: nat)
    requires
        0 <= k < d.len(),
        !is_digit(d[k]),
    ensures
        scan_digits(d, max) is Err,
    decreases d.len(),
{
    if k < d.len() - 1 {
        assert(d.drop_last()[k] == d[k]);
        lemma_non_digit_fails(d.drop_last(), k, max);
    }
}

/// A text with a character other than a digit (a leading `+` aside) is no
/// number.
pub proof fn lemma_non_numeric_rejected(s: Seq<char>, k: int, max: nat)
    requires
        0 <= k < s.len(),
        !is_digit(s[k]),
        !(k == 0 && s[k] == '+'),
    ensures
        unsigned_of(s, max) is Err,
{
    if s[0] == '+' && s.len() > 1 {
        assert(s.drop_first()[k - 1] == s[k]);
        lemma_non_digit_fails(s.drop_first(), k - 1, max);
    } else if s[0] != '+' {
        lemma_non_digit_fails(s, k, max);
    }
}

/// Reads a `u32` written in decimal, with an optional leading `+`.
pub fn parse_u32(s: &str) -> (r: Result<u32, NumberError>)
    ensures
        parsed(s@, u32::MAX as nat, r),
{
    parse_bounded(s, u32::MAX)
}

/// Reads a `u8` written in decimal, with an optional leading `+`.
pub fn parse_u8(s: &str) -> (r: Result<u8, NumberError>)
    ensures
        match unsigned_of(s@, u8::MAX as nat) {
            Ok(v) => r == Ok::<u8, NumberError>(v as u8),
            Err(e) => r == Err::<u8, NumberError>(e),
        },
{
    proof {
        lemma_scan_bounded(s@, u8::MAX as nat);
        if s@.len() > 0 {
            lemma_scan_bounded(s@.drop_first(), u8::MAX as nat);
        }
    }
    match parse_bounded(s, 255) {
        Ok(v) => Ok(v as u8),
        Err(e) => Err(e),
    }
}

} // verus!
