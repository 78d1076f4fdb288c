//! The text of the brightness control file: what a read makes of it and what
//! a write puts there.

use vstd::prelude::*;
use crate::number::{
    decimal_text, is_digit, lemma_decimal_text, lemma_read_written_number, number_of,
    parse_number_between, render_number, NumberError,
};
use crate::steps::UPPER_BOUND;
use crate::text::chars_of;

verus! {

/// `c` is white space: one of the characters with the Unicode property
/// White_Space.
pub open spec fn spec_is_space(c: char) -> bool {
    ||| '\u{9}' <= c <= '\u{d}'
    ||| c == ' '
    ||| c == '\u{85}'
    ||| c == '\u{a0}'
    ||| c == '\u{1680}'
    ||| '\u{2000}' <= c <= '\u{200a}'
    ||| c == '\u{2028}'
    ||| c == '\u{2029}'
    ||| c == '\u{202f}'
    ||| c == '\u{205f}'
    ||| c == '\u{3000}'
}

/// Tells whether `c` is white space.
#[verifier::when_used_as_spec(spec_is_space)]
pub fn is_space(c: char) -> (space: bool)
    ensures
        space == spec_is_space(c),
{
    ('\u{9}' <= c && c <= '\u{d}') || c == ' ' || c == '\u{85}' || c == '\u{a0}' || c
        == '\u{1680}' || ('\u{2000}' <= c && c <= '\u{200a}') || c == '\u{2028}' || c
        == '\u{2029}' || c == '\u{202f}' || c == '\u{205f}' || c == '\u{3000}'
}

/// `text` without the white space it starts with.
pub open spec fn trim_start(text: Seq<char>) -> Seq<char>
    decreases text.len(),
{
    if text.len() > 0 && is_space(text[0]) {
        trim_start(text.drop_first())
    } else {
        text
    }
}

/// `text` without the white space it ends with.
pub open spec fn trim_end(text: Seq<char>) -> Seq<char>
    decreases text.len(),
{
    if text.len() > 0 && is_space(text.last()) {
        trim_end(text.drop_last())
    } else {
        text
    }
}

/// `text` without the white space around it.
pub open spec fn trimmed(text: Seq<char>) -> Seq<char> {
    trim_end(trim_start(text))
}

/// What is stored when `value` is written: the value itself, held to the
/// upper bound.
pub open spec fn clamped(value: u32) -> u32 {
    if value <= UPPER_BOUND {
        value
    } else {
        UPPER_BOUND
    }
}

/// The brightness that the file's content reads as: the number that stands
/// there once the white space around it is taken off.
pub open spec fn brightness_of(content: Seq<char>) -> Result<u32, NumberError> {
    number_of(trimmed(content))
}

/// The content that a write of `value` leaves in the file.
pub open spec fn stored_text(value: u32) -> Seq<char> {
    decimal_text(clamped(value) as nat)
}

/// The file's content is not a brightness.
#[derive(Clone, Debug, PartialEq, Eq)]
pub struct ParseError {
    /// The content as it was read.
    pub text: String,
    /// What is wrong with it.
    pub cause: NumberError,
}

impl ParseError {
    /// Says in words what could not be read, with the content in the middle.
    pub fn message(&self) -> (words: String)
        ensures
            words@ == "could not parse "@ + self.text@ + " as a number"@,
    {
        let mut words = "could not parse ".to_owned();
        words.append(self.text.as_str());
        words.append(" as a number");
        words
    }
}

/// Trimming at the start takes off exactly the run of white space that the
/// text begins with.
pub proof fn lemma_trim_start(text: Seq<char>, n: int)
    requires
        0 <= n <= text.len(),
        forall|j: int| 0 <= j < n ==> is_space(#[trigger] text[j]),
        n < text.len() ==> !is_space(text[n]),
    ensures
        trim_start(text) == text.subrange(n, text.len() as int),
    decreases n,
{
    if n == 0 {
        assert(text.subrange(0, text.len() as int) =~= text);
    } else {
        let rest = text.drop_first();
        assert(is_space(text[0]));
        assert forall|j: int| 0 <= j < n - 1 implies is_space(#[trigger] rest[j]) by {
            assert(rest[j] == text[j + 1]);
        }
        lemma_trim_start(rest, n - 1);
        assert(rest.subrange(n - 1, rest.len() as int) =~= text.subrange(n, text.len() as int));
    }
}

/// Trimming at the end takes off exactly the run of white space that the
/// text ends with.
pub proof fn lemma_trim_end(text: Seq<char>, n: int)
    requires
        0 <= n <= text.len(),
        forall|j: int| n <= j < text.len() ==> is_space(#[trigger] text[j]),
        0 < n ==> !is_space(text[n - 1]),
    ensures
        trim_end(text) == text.take(n),
    decreases text.len() - n,
{
    if n == text.len() {
        assert(text.take(n) =~= text);
    } else {
        let rest = text.drop_last();
        assert(is_space(text[text.len() - 1]));
        lemma_trim_end(rest, n);
        assert(rest.take(n) =~= text.take(n));
    }
}

/// Reads the content of the brightness file: the number that stands there,
/// with white space allowed around it. Content that is no such number comes
/// back in the error, as it was read.
pub fn parse_brightness(content: &str) -> (parsed: Result<u32, ParseError>)
    ensures
        match parsed {
            Ok(value) => brightness_of(content@) == Ok::<u32, NumberError>(value),
            Err(error) => brightness_of(content@) == Err::<u32, NumberError>(error.cause)
                && error.text@ == content@,
        },
{
    let chars = chars_of(content);
    let len: usize = chars.len();
    let mut from: usize = 0;
    while from < len && is_space(chars[from])
        invariant
            from <= len == chars.len(),
            forall|j: int| 0 <= j < from ==> is_space(#[trigger] chars@[j]),
        decreases len - from,
    {
        from = from + 1;
    }
    let mut to: usize = len;
    while from < to && is_space(chars[to - 1])
        invariant
            from <= to <= len == chars.len(),
            forall|j: int| to <= j < len ==> is_space(#[trigger] chars@[j]),
        decreases to - from,
    {
        to = to - 1;
    }
    proof {
        let rest = chars@.subrange(from as int, len as int);
        lemma_trim_start(chars@, from as int);
        lemma_trim_end(rest, to - from);
        assert(rest.take(to - from) =~= chars@.subrange(from as int, to as int));
    }
    match parse_number_between(&chars, from, to) {
        Ok(value) => Ok(value),
        Err(cause) => Err(ParseError { text: content.to_owned(), cause }),
    }
}

/// Holds `value` to the upper bound.
pub fn clamp_brightness(value: u32) -> (stored: u32)
    ensures
        stored == clamped(value),
{
    if value <= UPPER_BOUND {
        value
    } else {
        UPPER_BOUND
    }
}

/// Gives the content to write to the brightness file for `value`: the
/// decimal text of the value held to the upper bound, with nothing around it.
pub fn render_brightness(value: u32) -> (content: String)
    ensures
        content@ == stored_text(value),
{
    render_number(clamp_brightness(value))
}

/// Writing a brightness and reading it again gives the value back when it
/// is within the upper bound, and the upper bound when it is beyond.
pub proof fn lemma_read_after_write(value: u32)
    ensures
        brightness_of(stored_text(value)) == Ok::<u32, NumberError>(clamped(value)),
        value <= UPPER_BOUND ==> brightness_of(stored_text(value)) == Ok::<u32, NumberError>(
            value,
        ),
        value > UPPER_BOUND ==> brightness_of(stored_text(value)) == Ok::<u32, NumberError>(
            UPPER_BOUND,
        ),
{
    let text = stored_text(value);
    lemma_decimal_text(clamped(value) as nat);
    assert(is_digit(text[0]));
    assert(is_digit(text[text.len() - 1]));
    lemma_trim_start(text, 0);
    assert(text.subrange(0, text.len() as int) =~= text);
    lemma_trim_end(text, text.len() as int);
    assert(text.take(text.len() as int) =~= text);
    lemma_read_written_number(clamped(value));
}

} // verus!
