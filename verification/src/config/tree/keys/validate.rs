//! Various implementations of the `Validate` trait.
use vstd::prelude::*;
use vstd::string::StringExecFns;
use vstd::utf8::decode_utf8;
use vstd::utf8::valid_utf8;

use crate::bytes;
use crate::config::tree::keys::Validate;
use crate::config::tree::traits::DOT;
use crate::config::tree::traits::KeyError;
use crate::date;

verus! {

/// Everything is valid.
#[derive(Default)]
pub struct All;

impl Validate for All {
    open spec fn admits(&self, value: Seq<u8>, outcome: Result<(), KeyError>) -> bool {
        outcome is Ok
    }

    fn validate(&self, _value: &[u8]) -> (outcome: Result<(), KeyError>) {
        Ok(())
    }
}

/// Values that parse as git dates are valid.
#[derive(Default)]
pub struct Time;

/// What validating a `value` that is to be a date may end with, given that
/// the current time is at hand: an error for bytes that are no text, and else
/// whatever reading the text as a date ends with.
pub open spec fn date_admits(value: Seq<u8>, outcome: Result<(), KeyError>) -> bool {
    if !valid_utf8(value) {
        outcome matches Err(KeyError::IllformedUtf8(_))
    } else {
        match outcome {
            Ok(()) => date::may_succeed(decode_utf8(value)),
            Err(KeyError::Date(error)) => date::may_parse_to(decode_utf8(value), true, Err(error)),
            Err(_) => false,
        }
    }
}

impl Validate for Time {
    open spec fn admits(&self, value: Seq<u8>, outcome: Result<(), KeyError>) -> bool {
        date_admits(value, outcome)
    }

    fn validate(&self, value: &[u8]) -> (outcome: Result<(), KeyError>) {
        let text = match bytes::to_str(value) {
            Ok(text) => text,
            Err(error) => {
                return Err(KeyError::IllformedUtf8(error));
            },
        };
        match date::parse(text, Some(date::now())) {
            Ok(_) => Ok(()),
            Err(error) => Err(KeyError::Date(error)),
        }
    }
}

/// Whether `value` stands for a remote by its URL rather than by its name:
/// it holds a slash, or it is a single dot.
pub open spec fn is_url(value: Seq<u8>) -> bool {
    value.contains(bytes::SLASH) || value == seq![DOT]
}

/// The words by which a value is refused that is neither a URL nor text,
/// where `lossy` is the value with U+FFFD in place of what is no text.
pub open spec fn illformed_message(lossy: Seq<char>) -> Seq<char> {
    "Illformed UTF-8 in remote name: \""@ + lossy + "\""@
}

/// Values that are git remotes, symbolic or urls
#[derive(Default)]
pub struct RemoteName;

impl Validate for RemoteName {
    open spec fn admits(&self, value: Seq<u8>, outcome: Result<(), KeyError>) -> bool {
        if is_url(value) || valid_utf8(value) {
            outcome is Ok
        } else {
            outcome matches Err(KeyError::IllformedRemoteName { message }) && message@
                == illformed_message(bytes::lossy_text(value))
        }
    }

    fn validate(&self, value: &[u8]) -> (outcome: Result<(), KeyError>) {
        if holds_separator(value) || (value.len() == 1 && value[0] == DOT) {
            assert(value@.len() == 1 && value@[0] == DOT ==> value@ =~= seq![DOT]);
            return Ok(());
        }
        match bytes::to_str(value) {
            Ok(_) => Ok(()),
            Err(_) => {
                let mut message = String::from_str("Illformed UTF-8 in remote name: \"");
                message.append(bytes::to_str_lossy(value).as_str());
                message.append("\"");
                Err(KeyError::IllformedRemoteName { message })
            },
        }
    }
}

fn holds_separator(value: &[u8]) -> (found: bool)
    ensures
        found == value@.contains(bytes::SLASH),
{
    let mut at: usize = 0;
    while at < value.len()
        invariant
            at <= value.len(),
            forall|i: int| 0 <= i < at ==> value@[i] != bytes::SLASH,
        decreases value.len() - at,
    {
        if value[at] == bytes::SLASH {
            return true;
        }
        at = at + 1;
    }
    false
}

} // verus!
