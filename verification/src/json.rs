//! JSON values as the wire carries them, read and written by `serde_json`.
//!
//! Every frame on a connection is one JSON value. The messages of the
//! protocol are flat objects whose members are strings and integers, so that
//! is all this module reads out of a value. Text going out is assembled by
//! the message encoders; only the quoting of a string is taken from
//! `serde_json`.

use vstd::prelude::*;
use vstd::string::*;

verus! {

/// `serde_json::Value`, carried as it comes.
#[verifier::external_type_specification]
#[verifier::external_body]
pub struct ExValue(serde_json::Value);

/// `serde_json::Error`, carried as it comes.
#[verifier::external_type_specification]
#[verifier::external_body]
pub struct ExError(serde_json::Error);

/// What the protocol reads of a JSON value.
pub enum Content {
    /// A JSON string.
    Text(Seq<char>),
    /// A JSON number that is an integer in the range of `i64`.
    Integer(i64),
    /// Anything else: null, a boolean, another number, an array, an object.
    Other,
}

/// What `value` is to the protocol.
pub uninterp spec fn json_content(value: serde_json::Value) -> Content;

/// The members of a JSON object, by name. A value that is no object has none.
pub uninterp spec fn json_members(value: serde_json::Value) -> Map<Seq<char>, Content>;

/// The JSON string literal for `text`, quotes and escapes included.
pub uninterp spec fn json_quoted(text: Seq<char>) -> Seq<char>;

/// The member `name` of `value`: `serde_json::Value::get` with a string
/// for its index.
///
/// Trusted: `get` yields the member of that name where `value` is an object
/// that has one, and nothing otherwise.
#[verifier::external_body]
pub(crate) fn member<'a>(value: &'a serde_json::Value, name: &str) -> (found: Option<
    &'a serde_json::Value,
>)
    ensures
        match found {
            Some(held) => json_members(*value).contains_key(name@) && json_members(*value)[name@]
                == json_content(*held),
            None => !json_members(*value).contains_key(name@),
        },
{
    value.get(name)
}

/// `serde_json::Value::as_str`.
///
/// Trusted: it yields the text of a JSON string, and nothing of any other
/// value.
pub assume_specification<'a>[ serde_json::Value::as_str ](value: &'a serde_json::Value) -> (text:
    Option<&'a str>)
    ensures
        match text {
            Some(t) => json_content(*value) == Content::Text(t@),
            None => !(json_content(*value) is Text),
        },
;

/// `serde_json::Value::as_i64`.
///
/// Trusted: it yields a JSON number that is an integer in the range of `i64`,
/// and nothing of any other value.
pub assume_specification[ serde_json::Value::as_i64 ](value: &serde_json::Value) -> (number:
    Option<i64>)
    ensures
        match number {
            Some(n) => json_content(*value) == Content::Integer(n),
            None => !(json_content(*value) is Integer),
        },
;

/// The text of member `name`, where `members` has it and it is a string.
pub open spec fn text_of(members: Map<Seq<char>, Content>, name: Seq<char>) -> Option<Seq<char>> {
    if members.contains_key(name) {
        match members[name] {
            Content::Text(text) => Some(text),
            _ => None,
        }
    } else {
        None
    }
}

/// The number of member `name`, where `members` has it and it is an integer.
pub open spec fn integer_of(members: Map<Seq<char>, Content>, name: Seq<char>) -> Option<i64> {
    if members.contains_key(name) {
        match members[name] {
            Content::Integer(number) => Some(number),
            _ => None,
        }
    } else {
        None
    }
}

/// The string member `name` of `value`, copied out.
pub(crate) fn text_member(value: &serde_json::Value, name: &str) -> (text: Option<String>)
    ensures
        match text {
            Some(t) => text_of(json_members(*value), name@) == Some(t@),
            None => text_of(json_members(*value), name@) is None,
        },
{
    match member(value, name) {
        Some(held) => match held.as_str() {
            Some(text) => Some(text.to_owned()),
            None => None,
        },
        None => None,
    }
}

/// The integer member `name` of `value`.
pub(crate) fn integer_member(value: &serde_json::Value, name: &str) -> (number: Option<i64>)
    ensures
        number == integer_of(json_members(*value), name@),
{
    match member(value, name) {
        Some(held) => held.as_i64(),
        None => None,
    }
}

/// `text` as a JSON string literal: `serde_json::to_string` on a `str`.
///
/// Trusted: the literal depends on the characters of `text` alone. Writing a
/// string into memory does not fail, so the call returns.
#[verifier::external_body]
pub(crate) fn quote(text: &str) -> (quoted: String)
    ensures
        quoted@ == json_quoted(text@),
{
    serde_json::to_string(text).unwrap()
}

/// The decimal digit that stands for `value`.
pub open spec fn digit(value: int) -> char {
    if value == 0 {
        '0'
    } else if value == 1 {
        '1'
    } else if value == 2 {
        '2'
    } else if value == 3 {
        '3'
    } else if value == 4 {
        '4'
    } else if value == 5 {
        '5'
    } else if value == 6 {
        '6'
    } else if value == 7 {
        '7'
    } else if value == 8 {
        '8'
    } else {
        '9'
    }
}

/// The digits of `number` in base ten, without leading zeros.
pub open spec fn decimal(number: nat) -> Seq<char>
    decreases number,
{
    if number < 10 {
        seq![digit(number as int)]
    } else {
        decimal(number / 10).push(digit(number as int % 10))
    }
}

/// The JSON number for an integer: its digits, after a minus sign where it
/// is negative.
pub open spec fn integer_text(number: int) -> Seq<char> {
    if number < 0 {
        seq!['-'] + decimal((-number) as nat)
    } else {
        decimal(number as nat)
    }
}

fn digit_text(value: u64) -> (text: &'static str)
    requires
        value < 10,
    ensures
        text@ == seq![digit(value as int)],
{
    proof {
        reveal_strlit("0");
        reveal_strlit("1");
        reveal_strlit("2");
        reveal_strlit("3");
        reveal_strlit("4");
        reveal_strlit("5");
        reveal_strlit("6");
        reveal_strlit("7");
        reveal_strlit("8");
        reveal_strlit("9");
    }
    let text = if value == 0 {
        "0"
    } else if value == 1 {
        "1"
    } else if value == 2 {
        "2"
    } else if value == 3 {
        "3"
    } else if value == 4 {
        "4"
    } else if value == 5 {
        "5"
    } else if value == 6 {
        "6"
    } else if value == 7 {
        "7"
    } else if value == 8 {
        "8"
    } else {
        "9"
    };
    assert(text@ =~= seq![digit(value as int)]);
    text
}

fn append_decimal(text: &mut String, number: u64)
    ensures
        final(text)@ == old(text)@ + decimal(number as nat),
    decreases number,
{
    if number >= 10 {
        append_decimal(text, number / 10);
    }
    text.append(digit_text(number % 10));
    assert(text@ =~= old(text)@ + decimal(number as nat));
}

/// Appends `number` to `text` as a JSON number.
pub(crate) fn append_integer(text: &mut String, number: i64)
    ensures
        final(text)@ == old(text)@ + integer_text(number as int),
{
    if number < 0 {
        proof {
            reveal_strlit("-");
        }
        text.append("-");
        let magnitude: u64 = (-(number + 1)) as u64 + 1;
        append_decimal(text, magnitude);
        assert(text@ =~= old(text)@ + integer_text(number as int));
    } else {
        append_decimal(text, number as u64);
    }
}

/// Why reading a value failed, after `serde_json::error::Category`.
#[derive(Clone, Copy, Debug, PartialEq, Eq, Structural)]
pub enum Category {
    /// The stream could not be read.
    Io,
    /// The input is not JSON.
    Syntax,
    /// The input is JSON of the wrong shape.
    Data,
    /// The stream ended inside a value, or before one.
    Eof,
}

/// The category of `error`: `serde_json::Error::classify`.
///
/// Trusted, with nothing claimed of which category comes back.
#[verifier::external_body]
pub(crate) fn category(error: &serde_json::Error) -> Category {
    match error.classify() {
        serde_json::error::Category::Io => Category::Io,
        serde_json::error::Category::Syntax => Category::Syntax,
        serde_json::error::Category::Data => Category::Data,
        serde_json::error::Category::Eof => Category::Eof,
    }
}

} // verus!
