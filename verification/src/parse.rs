//! Numbers at the start of a text: `123` in `123abc`, `12.5` in `12.5kg`.

use vstd::prelude::*;
use vstd::string::StringExecFns;

verus! {

/// The pattern of a number: digits, and optionally a dot with digits behind
/// it, at the start of the text.
pub const NUMBER_PATTERN: &'static str = r"^[0-9]+(\.[0-9]+)?";

/// The number of ASCII digits at the start of `text`.
pub open spec fn digits(text: Seq<char>) -> int
    decreases text.len(),
{
    if text.len() > 0 && '0' <= text[0] <= '9' {
        1 + digits(text.drop_first())
    } else {
        0
    }
}

/// The length of the number at the start of `text`: of its digits and, where
/// a dot and at least one digit follow them, of the dot and all digits behind
/// it. Zero where `text` starts with no digit.
pub open spec fn number_len(text: Seq<char>) -> int {
    let whole = digits(text);
    let behind = text.skip(whole + 1);
    if whole > 0 && whole < text.len() && text[whole] == '.' && digits(behind) > 0 {
        whole + 1 + digits(behind)
    } else {
        whole
    }
}

/// The number at the start of `text`, if it starts with a digit.
pub open spec fn leading_number(text: Seq<char>) -> Option<Seq<char>> {
    if number_len(text) > 0 {
        Some(text.take(number_len(text)))
    } else {
        None
    }
}

/// The message for a text that starts with no number.
pub open spec fn no_number() -> Seq<char> {
    "failed to parse string"@
}

/// The message for a number that the target type does not take.
pub open spec fn no_value() -> Seq<char> {
    "failed to parse captured string"@
}

/// `Regex::find` for the pattern `NUMBER_PATTERN`, which `Regex::new`
/// compiles: the leftmost match, each repetition as long as it can be. The
/// pattern is anchored at the start, so a match is a prefix of `text`.
#[verifier::external_body]
fn find_number<'a>(text: &'a str) -> (found: Option<&'a str>)
    ensures
        match found {
            Some(number) => leading_number(text@) == Some(number@),
            None => leading_number(text@) is None,
        },
{
    match regex::Regex::new(NUMBER_PATTERN).unwrap().find(text) {
        Some(found) => Some(found.as_str()),
        None => None,
    }
}

/// The number at the start of `s`, as it is written there, or the message
/// that there is none.
pub fn capture<'a>(s: &'a str) -> (captured: Result<&'a str, String>)
    ensures
        match captured {
            Ok(number) => leading_number(s@) == Some(number@),
            Err(message) => leading_number(s@) is None && message@ == no_number(),
        },
{
    match find_number(s) {
        Some(number) => Ok(number),
        None => Err(String::from_str("failed to parse string")),
    }
}

/// The value that a captured number was converted to, or the message that
/// the target type does not take the number.
pub fn converted<T>(value: Option<T>) -> (parsed: Result<T, String>)
    ensures
        match parsed {
            Ok(taken) => value == Some(taken),
            Err(message) => value is None && message@ == no_value(),
        },
{
    match value {
        Some(taken) => Ok(taken),
        None => Err(String::from_str("failed to parse captured string")),
    }
}

} // verus!
