//! Decimal text of unsigned numbers: reading it and writing it.

use vstd::prelude::*;
use crate::text::chars_of;

verus! {

/// Why a text is not the decimal form of a number that fits in 32 bits.
#[derive(Clone, Copy, Debug, PartialEq, Eq, Structural)]
pub enum NumberError {
    /// The text is empty.
    Empty,
    /// A character is not a decimal digit, or a sign stands alone.
    InvalidDigit,
    /// The digits stand for more than `u32::MAX`.
    TooLarge,
}

impl NumberError {
    /// Says in words what is wrong.
    pub fn message(self) -> (words: &'static str)
        ensures
            words@ == match self {
                NumberError::Empty => "cannot parse integer from empty string"@,
                NumberError::InvalidDigit => "invalid digit found in string"@,
                NumberError::TooLarge => "number too large to fit in target type"@,
            },
    {
        match self {
            NumberError::Empty => "cannot parse integer from empty string",
            NumberError::InvalidDigit => "invalid digit found in string",
            NumberError::TooLarge => "number too large to fit in target type",
        }
    }
}

/// `c` is one of the ten ASCII digits.
pub open spec fn is_digit(c: char) -> bool {
    '0' <= c <= '9'
}

/// The number a digit stands for.
pub open spec fn digit_value(c: char) -> nat
    recommends
        is_digit(c),
{
    (c as int - '0' as int) as nat
}

/// The digit that stands for `d`.
pub open spec fn digit_char(d: nat) -> char
    recommends
        d < 10,
{
    ('0' as int + d) as char
}

/// The number that a sequence of digits stands for in base ten; the empty
/// sequence stands for 0.
pub open spec fn decimal_value(digits: Seq<char>) -> nat
    decreases digits.len(),
{
    if digits.len() == 0 {
        0
    } else {
        decimal_value(digits.drop_last()) * 10 + digit_value(digits.last())
    }
}

/// How many digits `text` starts with.
pub open spec fn leading_digits(text: Seq<char>) -> nat
    decreases text.len(),
{
    if text.len() > 0 && is_digit(text[0]) {
        1 + leading_digits(text.drop_first())
    } else {
        0
    }
}

/// `text` without the one plus sign that may stand before a number.
pub open spec fn unsigned_part(text: Seq<char>) -> Seq<char> {
    if text.len() > 0 && text[0] == '+' {
        text.drop_first()
    } else {
        text
    }
}

/// What `text` reads as. A number is an optional `+` followed by one or more
/// digits whose value fits in 32 bits. Reading goes from left to right and
/// stops at the first fault: digits that outgrow 32 bits before any other
/// character is met are too large, whatever follows them.
pub open spec fn number_of(text: Seq<char>) -> Result<u32, NumberError> {
    let body = unsigned_part(text);
    let digits = body.take(leading_digits(body) as int);
    if text.len() == 0 {
        Err(NumberError::Empty)
    } else if body.len() == 0 {
        Err(NumberError::InvalidDigit)
    } else if decimal_value(digits) > u32::MAX {
        Err(NumberError::TooLarge)
    } else if digits.len() < body.len() {
        Err(NumberError::InvalidDigit)
    } else {
        Ok(decimal_value(digits) as u32)
    }
}

/// The decimal form of `n`, without sign or leading zeros.
pub open spec fn decimal_text(n: nat) -> Seq<char>
    decreases n,
{
    if n < 10 {
        seq![digit_char(n)]
    } else {
        decimal_text(n / 10).push(digit_char(n % 10))
    }
}

/// The leading digits of a text are a prefix of it, made of digits only, and
/// what follows them, if anything, is not a digit.
pub proof fn lemma_leading_digits(text: Seq<char>)
    ensures
        leading_digits(text) <= text.len(),
        forall|j: int| 0 <= j < leading_digits(text) ==> is_digit(#[trigger] text[j]),
        leading_digits(text) < text.len() ==> !is_digit(text[leading_digits(text) as int]),
    decreases text.len(),
{
    if text.len() > 0 && is_digit(text[0]) {
        let rest = text.drop_first();
        lemma_leading_digits(rest);
        assert forall|j: int| 0 <= j < leading_digits(text) implies is_digit(
            #[trigger] text[j],
        ) by {
            if j > 0 {
                assert(text[j] == rest[j - 1]);
            }
        }
        if leading_digits(text) < text.len() {
            assert(text[leading_digits(text) as int] == rest[leading_digits(rest) as int]);
        }
    }
}

/// A longer run of digits does not stand for a smaller number.
pub proof fn lemma_decimal_value_grows(digits: Seq<char>, shorter: int, longer: int)
    requires
        0 <= shorter <= longer <= digits.len(),
    ensures
        decimal_value(digits.take(shorter)) <= decimal_value(digits.take(longer)),
    decreases longer - shorter,
{
    if shorter < longer {
        lemma_decimal_value_grows(digits, shorter, longer - 1);
        assert(digits.take(longer).drop_last() =~= digits.take(longer - 1));
    }
}

/// Reads the characters of `chars` from `from` up to `to` as a number.
pub(crate) fn parse_number_between(chars: &Vec<char>, from: usize, to: usize) -> (parsed: Result<
    u32,
    NumberError,
>)
    requires
        from <= to <= chars.len(),
    ensures
        parsed == number_of(chars@.subrange(from as int, to as int)),
{
    let ghost text = chars@.subrange(from as int, to as int);
    if from == to {
        return Err(NumberError::Empty);
    }
    let start: usize = if chars[from] == '+' { from + 1 } else { from };
    let ghost body = unsigned_part(text);
    assert(body =~= chars@.subrange(start as int, to as int));
    if start == to {
        return Err(NumberError::InvalidDigit);
    }
    let mut value: u32 = 0;
    let mut i: usize = start;
    while i < to
        invariant
            start <= i <= to <= chars.len(),
            start < to,
            text == chars@.subrange(from as int, to as int),
            text.len() > 0,
            body == unsigned_part(text),
            body == chars@.subrange(start as int, to as int),
            forall|j: int| 0 <= j < i - start ==> is_digit(#[trigger] body[j]),
            value == decimal_value(body.take(i - start)),
        decreases to - i,
    {
        let c: char = chars[i];
        let ghost seen = body.take(i - start + 1);
        assert(seen.drop_last() =~= body.take(i - start));
        assert(seen.last() == c);
        if !(c >= '0' && c <= '9') {
            proof {
                lemma_leading_digits(body);
                assert(leading_digits(body) == i - start);
            }
            return Err(NumberError::InvalidDigit);
        }
        let digit: u32 = c as u32 - '0' as u32;
        let grown: Option<u32> = match value.checked_mul(10) {
            Some(tens) => tens.checked_add(digit),
            None => None,
        };
        match grown {
            Some(v) => {
                value = v;
            },
            None => {
                proof {
                    lemma_leading_digits(body);
                    assert(decimal_value(seen) > u32::MAX);
                    assert(leading_digits(body) >= i - start + 1);
                    lemma_decimal_value_grows(body, i - start + 1, leading_digits(body) as int);
                }
                return Err(NumberError::TooLarge);
            },
        }
        i = i + 1;
    }
    proof {
        lemma_leading_digits(body);
        assert(leading_digits(body) == body.len());
        assert(body.take(body.len() as int) =~= body);
    }
    Ok(value)
}

/// Reads `text` as a number.
pub fn parse_number(text: &str) -> (parsed: Result<u32, NumberError>)
    ensures
        parsed == number_of(text@),
{
    let chars = chars_of(text);
    assert(chars@.subrange(0, chars@.len() as int) =~= chars@);
    parse_number_between(&chars, 0, chars.len())
}

/// The one-character text of the digit that stands for `d`.
fn digit_text(d: u32) -> (text: &'static str)
    requires
        d < 10,
    ensures
        text@ == seq![digit_char(d as nat)],
{
    proof {
        reveal_strlit("0");
        reveal_strlit("1");
        reveal_strlit("2");
        reveal_strlit("3");
        reveal_strlit("4");
        reveal_strlit("5");
        reveal_strlit("6");
        reveal_strlit("7");
        reveal_strlit("8");
        reveal_strlit("9");
    }
    let text: &'static str = match d {
        0 => "0",
        1 => "1",
        2 => "2",
        3 => "3",
        4 => "4",
        5 => "5",
        6 => "6",
        7 => "7",
        8 => "8",
        _ => "9",
    };
    assert(text@ =~= seq![digit_char(d as nat)]);
    text
}

/// Writes `n` in decimal, without sign or leading zeros.
pub fn render_number(n: u32) -> (text: String)
    ensures
        text@ == decimal_text(n as nat),
    decreases n,
{
    if n < 10 {
        digit_text(n).to_owned()
    } else {
        let mut text = render_number(n / 10);
        text.append(digit_text(n % 10));
        text
    }
}

/// The decimal form of a number is one or more digits that stand for it.
pub proof fn lemma_decimal_text(n: nat)
    ensures
        decimal_text(n).len() > 0,
        forall|j: int| 0 <= j < decimal_text(n).len() ==> is_digit(#[trigger] decimal_text(n)[j]),
        decimal_value(decimal_text(n)) == n,
    decreases n,
{
    if n < 10 {
        let text = decimal_text(n);
        assert(text.drop_last() =~= Seq::<char>::empty());
        assert(decimal_value(text.drop_last()) == 0);
    } else {
        lemma_decimal_text(n / 10);
        let text = decimal_text(n);
        assert(text.drop_last() =~= decimal_text(n / 10));
    }
}

/// Reading what was written gives the number back: the decimal form of
/// any 32-bit number reads as that number.
pub proof fn lemma_read_written_number(n: u32)
    ensures
        number_of(decimal_text(n as nat)) == Ok::<u32, NumberError>(n),
{
    let text = decimal_text(n as nat);
    lemma_decimal_text(n as nat);
    assert(is_digit(text[0]));
    lemma_leading_digits(text);
    assert(text.take(text.len() as int) =~= text);
}

} // verus!
