//! Decimal integer parsing and formatting, with the grammar of Rust's
//! `FromStr` for integers: an optional sign, then one or more ASCII digits.

use vstd::prelude::*;
use crate::text::{push_char, to_chars};

verus! {

broadcast use vstd::string::group_string_axioms;

/// `c` is an ASCII decimal digit.
pub open spec fn is_digit(c: char) -> bool {
    '0' <= c && c <= '9'
}

/// Numeric value of a decimal digit.
pub open spec fn digit_value(c: char) -> int {
    (c as u32) as int - ('0' as u32) as int
}

/// Every character is a decimal digit.
pub open spec fn all_digits(s: Seq<char>) -> bool {
    forall|i: int| 0 <= i < s.len() ==> is_digit(s[i])
}

/// The number written by a sequence of digits (most significant first).
pub open spec fn digits_value(s: Seq<char>) -> int
    decreases s.len(),
{
    if s.len() == 0 {
        0
    } else {
        digits_value(s.drop_last()) * 10 + digit_value(s.last())
    }
}

/// What an unsigned integer `from_str` reads: an optional `+`, then a
/// non-empty run of digits. `None` for anything else.
pub open spec fn parse_unsigned(s: Seq<char>) -> Option<int> {
    let body = if s.len() > 0 && s[0] == '+' { s.skip(1) } else { s };
    if body.len() > 0 && all_digits(body) {
        Some(digits_value(body))
    } else {
        None
    }
}

/// What a signed integer `from_str` reads: an optional `+` or `-`, then a
/// non-empty run of digits. `None` for anything else.
pub open spec fn parse_signed(s: Seq<char>) -> Option<int> {
    if s.len() > 0 && s[0] == '-' {
        let body = s.skip(1);
        if body.len() > 0 && all_digits(body) {
            Some(-digits_value(body))
        } else {
            None
        }
    } else {
        parse_unsigned(s)
    }
}

/// `<u64 as FromStr>::from_str`, as an `Option`.
pub open spec fn spec_parse_u64(s: Seq<char>) -> Option<u64> {
    match parse_unsigned(s) {
        Some(v) => if v <= u64::MAX {
            Some(v as u64)
        } else {
            None
        },
        None => None,
    }
}

/// `<i64 as FromStr>::from_str`, as an `Option`.
pub open spec fn spec_parse_i64(s: Seq<char>) -> Option<i64> {
    match parse_signed(s) {
        Some(v) => if i64::MIN <= v <= i64::MAX {
            Some(v as i64)
        } else {
            None
        },
        None => None,
    }
}

/// Decimal digits of a natural number, without leading zeros ("0" for zero).
pub open spec fn decimal(n: nat) -> Seq<char>
    decreases n,
{
    if n < 10 {
        seq![(n + ('0' as u32)) as char]
    } else {
        decimal(n / 10).push(((n % 10) + ('0' as u32)) as char)
    }
}

/// A decimal numeral is a non-empty run of digits, and reads back as its
/// number.
pub proof fn lemma_decimal_parses(n: nat)
    ensures
        decimal(n).len() > 0,
        all_digits(decimal(n)),
        digits_value(decimal(n)) == n,
        parse_unsigned(decimal(n)) == Some(n as int),
    decreases n,
{
    let s = decimal(n);
    let c = s.last();
    assert(c == ((n % 10) + ('0' as u32)) as char);
    assert(c as u32 == (n % 10) + 48);
    assert(digit_value(c) == n % 10);
    if n < 10 {
        assert(s.drop_last() =~= Seq::<char>::empty());
        assert(digits_value(s) == digits_value(s.drop_last()) * 10 + digit_value(c));
    } else {
        lemma_decimal_parses(n / 10);
        assert(s.drop_last() =~= decimal(n / 10));
        assert(s.last() == ((n % 10) + ('0' as u32)) as char);
        assert forall|i: int| 0 <= i < s.len() implies is_digit(s[i]) by {
            if i < s.len() - 1 {
                assert(s[i] == decimal(n / 10)[i]);
            }
        }
        assert(digits_value(s) == digits_value(decimal(n / 10)) * 10 + digit_value(c));
        assert(digits_value(s) == (n / 10) * 10 + n % 10);
    }
    assert(is_digit(s[0]));
    assert(s[0] != '+');
}

proof fn lemma_digits_value_nonneg(s: Seq<char>)
    requires
        all_digits(s),
    ensures
        digits_value(s) >= 0,
    decreases s.len(),
{
    if s.len() > 0 {
        lemma_digits_value_nonneg(s.drop_last());
    }
}

proof fn lemma_digits_value_grows(s: Seq<char>, i: int)
    requires
        all_digits(s),
        0 <= i <= s.len(),
    ensures
        digits_value(s.take(i)) <= digits_value(s),
    decreases s.len() - i,
{
    if i < s.len() {
        lemma_digits_value_grows(s, i + 1);
        assert(s.take(i + 1).drop_last() =~= s.take(i));
        lemma_digits_value_nonneg(s.take(i));
    } else {
        assert(s.take(i) =~= s);
    }
}

/// Reads the digits `v[from..]` as an unsigned number no larger than `limit`.
fn read_digits(v: &Vec<char>, from: usize, limit: u64) -> (r: Option<u64>)
    requires
        from <= v.len(),
    ensures
        match r {
            Some(n) => from < v.len() && all_digits(v@.skip(from as int)) && n == digits_value(
                v@.skip(from as int),
            ) && n <= limit,
            None => !(from < v.len() && all_digits(v@.skip(from as int)) && digits_value(
                v@.skip(from as int),
            ) <= limit),
        },
{
    let ghost body = v@.skip(from as int);
    if from == v.len() {
        return None;
    }
    let mut acc: u64 = 0;
    let mut i = from;
    while i < v.len()
        invariant
            from <= i <= v.len(),
            body == v@.skip(from as int),
            all_digits(body.take(i - from)),
            acc == digits_value(body.take(i - from)),
            acc <= limit,
        decreases v.len() - i,
    {
        let c = v[i];
        if !('0' <= c && c <= '9') {
            assert(!is_digit(body[i - from]));
            return None;
        }
        let d = (c as u32 - '0' as u32) as u64;
        assert(body.take(i - from + 1).drop_last() =~= body.take(i - from));
        if d > limit || acc > (limit - d) / 10 {
            proof {
                assert(all_digits(body.take(i - from + 1)));
                assert(digits_value(body.take(i - from + 1)) == acc * 10 + d);
                if all_digits(body) {
                    lemma_digits_value_grows(body, i - from + 1);
                }
            }
            return None;
        }
        assert(acc * 10 + d <= limit) by (nonlinear_arith)
            requires
                d <= limit,
                acc <= (limit - d) / 10,
        ;
        acc = acc * 10 + d;
        i += 1;
    }
    assert(body.take(i - from) =~= body);
    Some(acc)
}

/// Parses `s` the way `<u64 as FromStr>::from_str` does.
pub fn parse_u64(s: &str) -> (r: Option<u64>)
    ensures
        r == spec_parse_u64(s@),
        match r {
            Some(n) => parse_unsigned(s@) == Some(n as int),
            None => !(parse_unsigned(s@) matches Some(v) && v <= u64::MAX),
        },
{
    let v = to_chars(s);
    let start: usize = if v.len() > 0 && v[0] == '+' { 1 } else { 0 };
    assert(start == 0 ==> v@.skip(0) =~= v@);
    let r = read_digits(&v, start, u64::MAX);
    proof {
        let body = if s@.len() > 0 && s@[0] == '+' { s@.skip(1) } else { s@ };
        assert(body == v@.skip(start as int));
        if body.len() > 0 && all_digits(body) {
            lemma_digits_value_nonneg(body);
        }
    }
    r
}

/// Parses `s` the way `<usize as FromStr>::from_str` does.
pub fn parse_usize(s: &str) -> (r: Option<usize>)
    ensures
        match r {
            Some(n) => parse_unsigned(s@) == Some(n as int),
            None => !(parse_unsigned(s@) matches Some(v) && v <= usize::MAX),
        },
{
    match parse_u64(s) {
        Some(n) => if n <= usize::MAX as u64 {
            Some(n as usize)
        } else {
            None
        },
        None => None,
    }
}

/// Parses `s` the way `<u32 as FromStr>::from_str` does.
pub fn parse_u32(s: &str) -> (r: Option<u32>)
    ensures
        match r {
            Some(n) => parse_unsigned(s@) == Some(n as int),
            None => !(parse_unsigned(s@) matches Some(v) && v <= u32::MAX),
        },
{
    match parse_u64(s) {
        Some(n) => if n <= u32::MAX as u64 {
            Some(n as u32)
        } else {
            None
        },
        None => None,
    }
}

/// Parses `s` the way `<u8 as FromStr>::from_str` does.
pub fn parse_u8(s: &str) -> (r: Option<u8>)
    ensures
        match r {
            Some(n) => parse_unsigned(s@) == Some(n as int),
            None => !(parse_unsigned(s@) matches Some(v) && v <= u8::MAX),
        },
{
    match parse_u64(s) {
        Some(n) => if n <= 255 {
            Some(n as u8)
        } else {
            None
        },
        None => None,
    }
}

/// Parses `s` the way `<i64 as FromStr>::from_str` does.
pub fn parse_i64(s: &str) -> (r: Option<i64>)
    ensures
        r == spec_parse_i64(s@),
{
    let v = to_chars(s);
    if v.len() > 0 && v[0] == '-' {
        let m = read_digits(&v, 1, 0x8000_0000_0000_0000u64);
        proof {
            let body = s@.skip(1);
            if body.len() > 0 && all_digits(body) {
                lemma_digits_value_nonneg(body);
            }
        }
        match m {
            Some(n) => {
                if n == 0x8000_0000_0000_0000u64 {
                    Some(i64::MIN)
                } else {
                    Some(-(n as i64))
                }
            },
            None => None,
        }
    } else {
        let start: usize = if v.len() > 0 && v[0] == '+' { 1 } else { 0 };
        assert(start == 0 ==> v@.skip(0) =~= v@);
        let m = read_digits(&v, start, 0x7fff_ffff_ffff_ffffu64);
        proof {
            let body = if s@.len() > 0 && s@[0] == '+' { s@.skip(1) } else { s@ };
            assert(body == v@.skip(start as int));
            if body.len() > 0 && all_digits(body) {
                lemma_digits_value_nonneg(body);
            }
        }
        match m {
            Some(n) => Some(n as i64),
            None => None,
        }
    }
}

/// Decimal rendering of `n` (what `u64::to_string` produces).
pub fn u64_to_string(n: u64) -> (s: String)
    ensures
        s@ == decimal(n as nat),
    decreases n,
{
    if n < 10 {
        let mut s = String::new();
        let c = digit_char(n as u8);
        push_char(&mut s, c);
        assert(s@ =~= decimal(n as nat));
        s
    } else {
        let mut s = u64_to_string(n / 10);
        let c = digit_char((n % 10) as u8);
        push_char(&mut s, c);
        s
    }
}

/// Decimal rendering of `n` (what `usize::to_string` produces).
pub fn usize_to_string(n: usize) -> (s: String)
    ensures
        s@ == decimal(n as nat),
{
    u64_to_string(n as u64)
}

/// The ASCII digit for `d`.
fn digit_char(d: u8) -> (c: char)
    requires
        d < 10,
    ensures
        c == ((d as nat) + ('0' as u32)) as char,
{
    match d {
        0 => '0',
        1 => '1',
        2 => '2',
        3 => '3',
        4 => '4',
        5 => '5',
        6 => '6',
        7 => '7',
        8 => '8',
        _ => '9',
    }
}

/// Whether `s` is an unsigned decimal number (an optional `+`, then digits).
pub fn is_unsigned_number(s: &str) -> (r: bool)
    ensures
        r == (parse_unsigned(s@) is Some),
{
    let v = to_chars(s);
    let start: usize = if v.len() > 0 && v[0] == '+' {
        1
    } else {
        0
    };
    if start >= v.len() {
        return false;
    }
    let ghost body = s@.skip(start as int);
    assert(body =~= (if s@.len() > 0 && s@[0] == '+' { s@.skip(1) } else { s@ }));
    let mut i = start;
    while i < v.len()
        invariant
            v@ == s@,
            start <= i <= v.len(),
            body == s@.skip(start as int),
            body == (if s@.len() > 0 && s@[0] == '+' { s@.skip(1) } else { s@ }),
            body.len() > 0,
            forall|j: int| start <= j < i ==> is_digit(v@[j]),
        decreases v.len() - i,
    {
        if !('0' <= v[i] && v[i] <= '9') {
            assert(!is_digit(body[i - start]));
            return false;
        }
        i += 1;
    }
    assert(all_digits(body)) by {
        assert forall|j: int| 0 <= j < body.len() implies is_digit(body[j]) by {
            assert(body[j] == v@[start + j]);
        }
    }
    true
}

} // verus!
