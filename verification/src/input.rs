//! Interpretation of the lines a user types: trimming and port numbers.

use vstd::prelude::*;
use crate::custom_errors::{Errors, error_text, is_error_with_text};
use crate::text::{chars_of, decimal, digit_char, spec_trim, trim};

verus! {

/// Why a text is not a `u16`, as the kinds of `core::num::IntErrorKind`
/// that unsigned parsing can give.
#[derive(Debug, Clone, Copy, PartialEq, Eq, Structural)]
pub enum ParseFailure {
    Empty,
    InvalidDigit,
    PosOverflow,
}

/// The message that `ParseIntError` displays for each failure.
pub open spec fn failure_text(f: ParseFailure) -> Seq<char> {
    match f {
        ParseFailure::Empty => "cannot parse integer from empty string"@,
        ParseFailure::InvalidDigit => "invalid digit found in string"@,
        ParseFailure::PosOverflow => "number too large to fit in target type"@,
    }
}

/// The message that `ParseIntError` displays for `f`.
pub fn failure_message(f: ParseFailure) -> (s: &'static str)
    ensures
        s@ == failure_text(f),
{
    match f {
        ParseFailure::Empty => "cannot parse integer from empty string",
        ParseFailure::InvalidDigit => "invalid digit found in string",
        ParseFailure::PosOverflow => "number too large to fit in target type",
    }
}

/// `c` is one of `'0'..='9'`.
pub open spec fn is_digit(c: char) -> bool {
    48 <= (c as u32) <= 57
}

/// The value of the digit `c`.
pub open spec fn digit_value(c: char) -> int {
    (c as u32) - 48
}

/// Reads the digits of `s` from the left onto `acc`, failing as `u16`'s
/// `from_str` does: a non-digit is an invalid digit, a value above
/// `u16::MAX` an overflow, whichever comes first.
pub open spec fn parse_digits(s: Seq<char>, acc: int) -> Result<int, ParseFailure>
    decreases s.len(),
{
    if s.len() == 0 {
        Ok(acc)
    } else if !is_digit(s[0]) {
        Err(ParseFailure::InvalidDigit)
    } else if acc * 10 + digit_value(s[0]) > 65535 {
        Err(ParseFailure::PosOverflow)
    } else {
        parse_digits(s.drop_first(), acc * 10 + digit_value(s[0]))
    }
}

/// What `s.parse::<u16>()` gives: an optional `'+'` followed by decimal
/// digits whose value fits in a `u16`.
pub open spec fn spec_parse_u16(s: Seq<char>) -> Result<u16, ParseFailure> {
    if s.len() == 0 {
        Err(ParseFailure::Empty)
    } else if s.len() == 1 && (s[0] == '+' || s[0] == '-') {
        Err(ParseFailure::InvalidDigit)
    } else if s[0] == '+' {
        narrow(parse_digits(s.drop_first(), 0))
    } else {
        narrow(parse_digits(s, 0))
    }
}

/// A parse result carried over to `u16`.
pub open spec fn narrow(r: Result<int, ParseFailure>) -> Result<u16, ParseFailure> {
    match r {
        Ok(v) => Ok(v as u16),
        Err(f) => Err(f),
    }
}

/// Parsing stays within `0..=u16::MAX`.
pub proof fn lemma_parse_digits_bounded(s: Seq<char>, acc: int)
    requires
        0 <= acc <= 65535,
    ensures
        parse_digits(s, acc) matches Ok(v) ==> 0 <= v <= 65535,
    decreases s.len(),
{
    if s.len() > 0 && is_digit(s[0]) && acc * 10 + digit_value(s[0]) <= 65535 {
        lemma_parse_digits_bounded(s.drop_first(), acc * 10 + digit_value(s[0]));
    }
}

/// Reading `s` followed by `c` is reading `s`, then `c`.
pub proof fn lemma_parse_digits_push(s: Seq<char>, c: char, acc: int)
    ensures
        parse_digits(s.push(c), acc) == match parse_digits(s, acc) {
            Ok(v) => parse_digits(seq![c], v),
            Err(f) => Err(f),
        },
    decreases s.len(),
{
    if s.len() == 0 {
        assert(s.push(c) =~= seq![c]);
    } else {
        assert(s.push(c)[0] == s[0]);
        assert(s.push(c).drop_first() =~= s.drop_first().push(c));
        if is_digit(s[0]) && acc * 10 + digit_value(s[0]) <= 65535 {
            lemma_parse_digits_push(s.drop_first(), c, acc * 10 + digit_value(s[0]));
        }
    }
}

/// Reading the decimal rendering of `n` gives `n` back.
pub proof fn lemma_parse_decimal(n: nat)
    requires
        n <= 65535,
    ensures
        parse_digits(decimal(n), 0) == Ok::<int, ParseFailure>(n as int),
        decimal(n).len() > 0,
        is_digit(decimal(n)[0]),
    decreases n,
{
    let d = digit_char((n % 10) as int);
    assert(digit_value(d) == n % 10);
    assert(is_digit(d));
    assert(seq![d].drop_first() =~= Seq::<char>::empty());
    assert(parse_digits(Seq::<char>::empty(), n as int) == Ok::<int, ParseFailure>(n as int));
    if n < 10 {
        assert(decimal(n) == seq![d]);
        assert(parse_digits(seq![d], 0) == parse_digits(seq![d].drop_first(), n as int));
    } else {
        lemma_parse_decimal(n / 10);
        lemma_parse_digits_push(decimal(n / 10), d, 0);
        assert(n == (n / 10) * 10 + n % 10) by (nonlinear_arith);
        assert(parse_digits(seq![d], (n / 10) as int) == parse_digits(
            seq![d].drop_first(),
            n as int,
        ));
        assert(decimal(n)[0] == decimal(n / 10)[0]);
    }
}

/// A port number rendered in decimal parses back to itself.
pub proof fn lemma_port_text_round_trip(n: u16)
    ensures
        spec_parse_u16(decimal(n as nat)) == Ok::<u16, ParseFailure>(n),
{
    lemma_parse_decimal(n as nat);
}

/// A non-digit anywhere among the digits makes reading them fail.
proof fn lemma_non_digit_fails(s: Seq<char>, acc: int, k: int)
    requires
        0 <= k < s.len(),
        (s[k] as u32) < 48 || (s[k] as u32) > 57,
    ensures
        parse_digits(s, acc) is Err,
    decreases s.len(),
{
    if k > 0 && is_digit(s[0]) && acc * 10 + digit_value(s[0]) <= 65535 {
        assert(s.drop_first()[k - 1] == s[k]);
        lemma_non_digit_fails(s.drop_first(), acc * 10 + digit_value(s[0]), k - 1);
    }
}

/// What a port number may look like: a text with a character other than
/// `'0'..='9'`, apart from one leading `'+'`, is refused, as is the empty
/// text; and a port written in decimal, with or without a leading `'+'`,
/// is read back as itself.
pub proof fn lemma_port_number_syntax(s: Seq<char>, n: u16)
    ensures
        s.len() == 0 ==> spec_parse_u16(s) == Err::<u16, ParseFailure>(ParseFailure::Empty),
        (exists|k: int|
            (if s.len() > 0 && s[0] == '+' {
                1int
            } else {
                0int
            }) <= k < s.len() && ((#[trigger] s[k] as u32) < 48 || (s[k] as u32) > 57))
            ==> spec_parse_u16(s) is Err,
        spec_parse_u16(decimal(n as nat)) == Ok::<u16, ParseFailure>(n),
        spec_parse_u16(seq!['+'] + decimal(n as nat)) == Ok::<u16, ParseFailure>(n),
{
    lemma_parse_decimal(n as nat);
    let t = seq!['+'] + decimal(n as nat);
    assert(t.drop_first() =~= decimal(n as nat));
    assert(t[0] == '+');
    assert(t.len() > 1);
    if exists|k: int|
        (if s.len() > 0 && s[0] == '+' {
            1int
        } else {
            0int
        }) <= k < s.len() && ((#[trigger] s[k] as u32) < 48 || (s[k] as u32) > 57) {
        let k = choose|k: int|
            (if s.len() > 0 && s[0] == '+' {
                1int
            } else {
                0int
            }) <= k < s.len() && ((#[trigger] s[k] as u32) < 48 || (s[k] as u32) > 57);
        if s.len() == 1 && (s[0] == '+' || s[0] == '-') {
        } else if s[0] == '+' {
            assert(s.drop_first()[k - 1] == s[k]);
            lemma_non_digit_fails(s.drop_first(), 0, k - 1);
        } else {
            lemma_non_digit_fails(s, 0, k);
        }
    }
}

/// Parses a port number as `text.parse::<u16>()` does.
pub fn parse_u16(text: &str) -> (r: Result<u16, ParseFailure>)
    ensures
        r == spec_parse_u16(text@),
{
    let s = chars_of(text);
    let n = s.len();
    if n == 0 {
        return Err(ParseFailure::Empty);
    }
    if n == 1 && (s[0] == '+' || s[0] == '-') {
        return Err(ParseFailure::InvalidDigit);
    }
    let start: usize = if s[0] == '+' {
        1
    } else {
        0
    };
    let ghost digits = if s@[0] == '+' {
        s@.drop_first()
    } else {
        s@
    };
    assert(digits =~= s@.skip(start as int));
    assert(spec_parse_u16(text@) == narrow(parse_digits(digits, 0)));
    let mut acc: u32 = 0;
    let mut i: usize = start;
    while i < n
        invariant
            n == s@.len(),
            s@ == text@,
            start <= i <= n,
            digits == s@.skip(start as int),
            spec_parse_u16(text@) == narrow(parse_digits(digits, 0)),
            acc <= 65535,
            parse_digits(digits, 0) == parse_digits(s@.skip(i as int), acc as int),
        decreases n - i,
    {
        let c = s[i];
        let u = c as u32;
        assert(s@.skip(i as int)[0] == c);
        assert(s@.skip(i as int).drop_first() =~= s@.skip(i + 1));
        if u < 48 || u > 57 {
            assert(!is_digit(c));
            assert(parse_digits(s@.skip(i as int), acc as int) == Err::<int, ParseFailure>(
                ParseFailure::InvalidDigit,
            ));
            return Err(ParseFailure::InvalidDigit);
        }
        let next = acc * 10 + (u - 48);
        if next > 65535 {
            assert(parse_digits(s@.skip(i as int), acc as int) == Err::<int, ParseFailure>(
                ParseFailure::PosOverflow,
            ));
            return Err(ParseFailure::PosOverflow);
        }
        acc = next;
        i = i + 1;
    }
    assert(s@.skip(n as int) =~= Seq::<char>::empty());
    assert(parse_digits(digits, 0) == Ok::<int, ParseFailure>(acc as int));
    Ok(acc as u16)
}

/// Conversion of the text a user typed into a value.
pub trait ParseInput<T> {
    fn parse_input(&self) -> Result<T, Errors>;
}

/// The result `parse_input` gives for a port number typed as `s`.
pub open spec fn parsed_input(s: Seq<char>, r: Result<u16, Errors>) -> bool {
    match spec_parse_u16(s) {
        Ok(v) => r == Ok::<u16, Errors>(v),
        Err(f) => r matches Err(e) && is_error_with_text(
            e,
            error_text("Ошибка парсинга"@, failure_text(f)),
        ),
    }
}

fn parse_port_input(text: &str) -> (r: Result<u16, Errors>)
    ensures
        parsed_input(text@, r),
{
    match parse_u16(text) {
        Ok(v) => Ok(v),
        Err(f) => Err(Errors::error("Ошибка парсинга", failure_message(f))),
    }
}

impl ParseInput<u16> for String {
    /// Parses a port number; a failure becomes an error that names it.
    fn parse_input(&self) -> (r: Result<u16, Errors>)
        ensures
            parsed_input(self@, r),
    {
        parse_port_input(self.as_str())
    }
}

impl<'a> ParseInput<u16> for &'a str {
    /// Parses a port number; a failure becomes an error that names it.
    fn parse_input(&self) -> (r: Result<u16, Errors>)
        ensures
            parsed_input((*self)@, r),
    {
        parse_port_input(*self)
    }
}

/// The value of a line the user typed: the line without surrounding white
/// space.
pub fn trim_input(line: &str) -> (r: String)
    ensures
        r@ == spec_trim(line@),
{
    trim(line)
}

} // verus!
