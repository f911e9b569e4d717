//! Reading a level out of free text.
//!
//! The digits of the text are collected into one numeral, which is then read
//! as a 32-bit integer. A digit that directly follows a hyphen contributes
//! the two characters `-1` in place of itself: the rule recognises a level of
//! minus one and nothing else, and a numeral such as `3-1` is no integer.

use vstd::prelude::*;
use vstd::string::*;
use crate::error::{ParseError, ParseErrorModel};
use crate::text::to_chars;

verus! {

/// The ASCII digits.
pub open spec fn is_digit(c: char) -> bool {
    0x30 <= c as u32 <= 0x39
}

/// The value of an ASCII digit.
pub open spec fn digit_value(c: char) -> nat {
    (c as u32 - 0x30) as nat
}

/// The numeral collected from `s`.
pub open spec fn level_digits(s: Seq<char>) -> Seq<char>
    decreases s.len(),
{
    if s.len() == 0 {
        Seq::empty()
    } else {
        let head = level_digits(s.drop_last());
        let c = s.last();
        if !is_digit(c) {
            head
        } else if s.len() >= 2 && s[s.len() - 2] == '-' {
            head.push('-').push('1')
        } else {
            head.push(c)
        }
    }
}

/// The number that a sequence of decimal digits denotes.
pub open spec fn digits_value(d: Seq<char>) -> nat
    decreases d.len(),
{
    if d.len() == 0 {
        0
    } else {
        digits_value(d.drop_last()) * 10 + digit_value(d.last())
    }
}

/// Every character is an ASCII digit.
pub open spec fn all_digits(d: Seq<char>) -> bool {
    forall|i: int| 0 <= i < d.len() ==> is_digit(#[trigger] d[i])
}

/// The 32-bit integer that the numeral `t` denotes: an optional leading
/// hyphen, then at least one digit, the value within the range of `i32`.
pub open spec fn parsed_integer(t: Seq<char>) -> Option<int> {
    if t.len() > 0 && t[0] == '-' {
        let d = t.subrange(1, t.len() as int);
        if d.len() > 0 && all_digits(d) && digits_value(d) <= 0x8000_0000 {
            Some(-(digits_value(d) as int))
        } else {
            None
        }
    } else if t.len() > 0 && all_digits(t) && digits_value(t) <= 0x7fff_ffff {
        Some(digits_value(t) as int)
    } else {
        None
    }
}

/// The level that the text `s` gives, if it gives one.
pub open spec fn level_of(s: Seq<char>) -> Option<int> {
    parsed_integer(level_digits(s))
}

/// Whether `c` is an ASCII digit.
pub fn digit(c: char) -> (r: bool)
    ensures
        r == is_digit(c),
{
    let u: u32 = c as u32;
    0x30 <= u && u <= 0x39
}

/// Collects the numeral of `s`.
pub fn collect_digits(s: &Vec<char>) -> (acc: Vec<char>)
    ensures
        acc@ == level_digits(s@),
{
    let n: usize = s.len();
    let mut acc: Vec<char> = Vec::new();
    let mut i: usize = 0;
    while i < n
        invariant
            i <= n,
            n == s@.len(),
            acc@ == level_digits(s@.subrange(0, i as int)),
        decreases n - i,
    {
        let c = s[i];
        proof {
            let next = s@.subrange(0, i as int + 1);
            assert(next.drop_last() =~= s@.subrange(0, i as int));
            assert(next.last() == c);
            if i >= 1 {
                assert(next[next.len() - 2] == s@[i as int - 1]);
            }
        }
        if digit(c) {
            if i >= 1 && s[i - 1] == '-' {
                acc.push('-');
                acc.push('1');
            } else {
                acc.push(c);
            }
        }
        i += 1;
    }
    assert(s@.subrange(0, n as int) =~= s@);
    acc
}

/// Reads the numeral `t` as a 32-bit integer.
pub fn parse_integer(t: &Vec<char>) -> (r: Option<i32>)
    ensures
        match r {
            Some(v) => parsed_integer(t@) == Some(v as int),
            None => parsed_integer(t@) is None,
        },
{
    let n: usize = t.len();
    if n == 0 {
        return None;
    }
    let negative = t[0] == '-';
    let start: usize = if negative { 1 } else { 0 };
    if start == n {
        return None;
    }
    let ghost d = t@.subrange(start as int, n as int);
    let mut v: u64 = 0;
    let mut i: usize = start;
    assert(t@.subrange(start as int, start as int) =~= Seq::<char>::empty());
    while i < n
        invariant
            start <= i <= n,
            n == t@.len(),
            d == t@.subrange(start as int, n as int),
            negative == (t@[0] == '-'),
            start == if negative { 1usize } else { 0usize },
            all_digits(t@.subrange(start as int, i as int)),
            v <= 0x8000_0001,
            v == if digits_value(t@.subrange(start as int, i as int)) > 0x8000_0000 {
                0x8000_0001
            } else {
                digits_value(t@.subrange(start as int, i as int))
            },
        decreases n - i,
    {
        let c = t[i];
        if !digit(c) {
            assert(d[i - start] == c);
            assert(!all_digits(d));
            assert(!negative ==> d =~= t@);
            return None;
        }
        proof {
            let next = t@.subrange(start as int, i as int + 1);
            assert(next.drop_last() =~= t@.subrange(start as int, i as int));
            assert(next.last() == c);
        }
        let code: u32 = c as u32;
        let unit: u64 = (code - 0x30) as u64;
        if v <= 0x8000_0000 {
            v = v * 10 + unit;
            if v > 0x8000_0000 {
                v = 0x8000_0001;
            }
        }
        i += 1;
    }
    if negative {
        if v <= 0x8000_0000 {
            Some((0 - v as i64) as i32)
        } else {
            None
        }
    } else {
        assert(d =~= t@);
        if v <= 0x7fff_ffff {
            Some(v as i32)
        } else {
            None
        }
    }
}

/// Reads the level out of `string`. Where the text gives none, the error
/// carries the text and the creature's `name`.
pub fn get_digit(string: &str, name: &str) -> (r: Result<i32, ParseError>)
    ensures
        match r {
            Ok(level) => level_of(string@) == Some(level as int),
            Err(e) => level_of(string@) is None && e@ == (ParseErrorModel::BadLevel {
                text: string@,
                name: name@,
            }),
        },
{
    let chars = to_chars(string);
    let numeral = collect_digits(&chars);
    match parse_integer(&numeral) {
        Some(level) => Ok(level),
        None => Err(
            ParseError::BadLevel { text: String::from_str(string), name: String::from_str(name) },
        ),
    }
}

} // verus!
