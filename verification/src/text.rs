//! Building, rendering and reading text.

use vstd::prelude::*;
use vstd::string::*;

verus! {

/// `String::push` of the standard library appends one character to the end
/// of the string and leaves what was there in front of it as it was.
pub assume_specification[ std::string::String::push ](s: &mut std::string::String, ch: char)
    ensures
        final(s)@ == old(s)@.push(ch),
;

/// The characters of a text, one by one.
pub fn chars_of(s: &str) -> (v: Vec<char>)
    ensures
        v@ == s@,
{
    broadcast use vstd::string::group_string_axioms;

    let mut v: Vec<char> = Vec::new();
    for c in it: s.chars()
        invariant
            it.seq() == s@,
            v@ == s@.take(it.index() as int),
    {
        v.push(c);
    }
    assert(v@ == s@);
    v
}

/// Whether an owned text reads exactly as the given one.
pub fn reads(s: &String, lit: &str) -> (same: bool)
    ensures
        same == (s@ == lit@),
{
    let other = String::from_str(lit);
    *s == other
}

/// The two texts, one behind the other.
pub fn join(head: &str, tail: &str) -> (s: String)
    ensures
        s@ == head@ + tail@,
{
    let mut s = String::from_str(head);
    s.append(tail);
    s
}

/// The character of a decimal digit.
pub open spec fn digit_char(d: int) -> char {
    if d == 0 {
        '0'
    } else if d == 1 {
        '1'
    } else if d == 2 {
        '2'
    } else if d == 3 {
        '3'
    } else if d == 4 {
        '4'
    } else if d == 5 {
        '5'
    } else if d == 6 {
        '6'
    } else if d == 7 {
        '7'
    } else if d == 8 {
        '8'
    } else {
        '9'
    }
}

/// The decimal digits of a natural number, without leading zeros.
pub open spec fn natural_text(n: nat) -> Seq<char>
    decreases n,
{
    if n < 10 {
        seq![digit_char(n as int)]
    } else {
        natural_text(n / 10).push(digit_char((n % 10) as int))
    }
}

/// The decimal text of an integer: a minus sign where it is negative, then
/// the digits of its magnitude.
pub open spec fn decimal_text(n: int) -> Seq<char> {
    if n < 0 {
        seq!['-'] + natural_text((-n) as nat)
    } else {
        natural_text(n as nat)
    }
}

fn digit(d: u64) -> (c: char)
    requires
        d < 10,
    ensures
        c == digit_char(d as int),
{
    if d == 0 {
        '0'
    } else if d == 1 {
        '1'
    } else if d == 2 {
        '2'
    } else if d == 3 {
        '3'
    } else if d == 4 {
        '4'
    } else if d == 5 {
        '5'
    } else if d == 6 {
        '6'
    } else if d == 7 {
        '7'
    } else if d == 8 {
        '8'
    } else {
        '9'
    }
}

/// Appends the decimal digits of `n` to `s`.
pub fn push_natural(s: &mut String, n: u64)
    ensures
        final(s)@ == old(s)@ + natural_text(n as nat),
    decreases n,
{
    if n < 10 {
        s.push(digit(n));
        assert(old(s)@.push(digit_char(n as int)) =~= old(s)@ + natural_text(n as nat));
    } else {
        push_natural(s, n / 10);
        s.push(digit(n % 10));
        assert((old(s)@ + natural_text((n / 10) as nat)).push(digit_char((n % 10) as int))
            =~= old(s)@ + natural_text(n as nat));
    }
}

/// Appends the decimal text of `n` to `s`.
pub fn push_integer(s: &mut String, n: i64)
    ensures
        final(s)@ == old(s)@ + decimal_text(n as int),
{
    if n < 0 {
        s.push('-');
        let magnitude: u64 = if n == i64::MIN {
            9223372036854775808u64
        } else {
            (-n) as u64
        };
        push_natural(s, magnitude);
        assert(old(s)@.push('-') + natural_text(magnitude as nat) =~= old(s)@ + decimal_text(
            n as int,
        ));
    } else {
        push_natural(s, n as u64);
    }
}

/// The decimal text of a count.
pub fn render_natural(n: u64) -> (s: String)
    ensures
        s@ == natural_text(n as nat),
{
    let mut s = String::new();
    push_natural(&mut s, n);
    assert(Seq::<char>::empty() + natural_text(n as nat) =~= natural_text(n as nat));
    s
}

/// The decimal text of an integer.
pub fn render_integer(n: i64) -> (s: String)
    ensures
        s@ == decimal_text(n as int),
{
    let mut s = String::new();
    push_integer(&mut s, n);
    assert(Seq::<char>::empty() + decimal_text(n as int) =~= decimal_text(n as int));
    s
}

/// A decimal digit.
pub open spec fn is_decimal(c: char) -> bool {
    '0' <= c <= '9'
}

/// The number that a run of decimal digits writes.
pub open spec fn digits_value(s: Seq<char>) -> int
    decreases s.len(),
{
    if s.len() == 0 {
        0
    } else {
        digits_value(s.drop_last()) * 10 + (s.last() as int - '0' as int)
    }
}

/// A run of at least one character, all of them decimal digits.
pub open spec fn is_digits(s: Seq<char>) -> bool {
    s.len() > 0 && forall|i: int| 0 <= i < s.len() ==> is_decimal(#[trigger] s[i])
}

/// The integer that a text writes, where it writes one that a 64-bit signed
/// integer can hold: an optional sign, then nothing but decimal digits, at
/// least one.
pub open spec fn integer_value(s: Seq<char>) -> Option<int> {
    let signed = s.len() > 0 && (s[0] == '-' || s[0] == '+');
    let digits = if signed {
        s.skip(1)
    } else {
        s
    };
    let value = if signed && s[0] == '-' {
        -digits_value(digits)
    } else {
        digits_value(digits)
    };
    if is_digits(digits) && i64::MIN <= value <= i64::MAX {
        Some(value)
    } else {
        None
    }
}

/// The message with which the standard library turns down a text that
/// writes no 64-bit signed integer.
pub uninterp spec fn integer_parse_failure(text: Seq<char>) -> Seq<char>;

/// Reads a 64-bit signed integer with `str::parse` of the standard library.
///
/// The standard library documents what it reads: an optional `+` or `-`
/// sign followed by decimal digits only, and an error where the text is
/// empty, holds any other character or writes a number out of range. This
/// contract claims that, and gives the error's message a name.
#[verifier::external_body]
pub(crate) fn parse_integer(text: &str) -> (r: Result<i64, String>)
    ensures
        match r {
            Ok(n) => integer_value(text@) == Some(n as int),
            Err(msg) => integer_value(text@) is None && msg@ == integer_parse_failure(text@),
        },
{
    match text.parse::<i64>() {
        Ok(n) => Ok(n),
        Err(e) => Err(e.to_string()),
    }
}

} // verus!
