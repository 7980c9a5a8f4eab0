use vstd::prelude::*;
use crate::json::{Json, member, element, text_of, parsed_json, parse_json};

verus! {

/// Which API error a reply reported.
#[derive(PartialEq, Eq, Structural, Clone, Copy, Debug)]
pub enum ErrorKind {
    /// The service refused the credential (the caller should reset it).
    CredentialRejected,
    Generic,
}

/// What a raw reply turned out to be.
#[derive(Debug)]
pub enum Classified {
    /// Not JSON, or JSON without the expected shape.
    ParseFailure,
    /// The reply held an `error` member.
    ApiError { kind: ErrorKind, message: String },
    /// The reply held the message content at `choices[0].message.content`.
    Success { content: String },
}

/// Whether `needle` occurs in `hay` as a run of consecutive characters.
pub open spec fn contains_seq(hay: Seq<char>, needle: Seq<char>) -> bool {
    exists|i: int|
        0 <= i && i + needle.len() <= hay.len() && #[trigger] hay.subrange(i, i + needle.len())
            == needle
}

/// Relies on str::contains: whether the pattern matches a slice of the text.
#[verifier::external_body]
fn text_contains(hay: &str, needle: &str) -> (r: bool)
    ensures
        r == contains_seq(hay@, needle@),
{
    hay.contains(needle)
}

/// The text whose presence in an error message means the credential was refused.
pub open spec fn rejection_text() -> Seq<char> {
    "Your API key is not allowed"@
}

/// The message of an `error` member: its `message` string, or a fixed
/// fallback when there is none.
pub open spec fn error_message(err: Json) -> Seq<char> {
    match member(err, "message"@) {
        Some(m) => match text_of(m) {
            Some(t) => t,
            None => "Unknown error"@,
        },
        None => "Unknown error"@,
    }
}

/// The string at `choices[0].message.content`, if the reply has one there.
pub open spec fn reply_content(j: Json) -> Option<Seq<char>> {
    match member(j, "choices"@) {
        Some(choices) => match element(choices, 0) {
            Some(first) => match member(first, "message"@) {
                Some(msg) => match member(msg, "content"@) {
                    Some(c) => text_of(c),
                    None => None,
                },
                None => None,
            },
            None => None,
        },
        None => None,
    }
}

/// `r` is the classification of the JSON reply `j`: an `error` member wins;
/// else the content string is a success; else the shape is wrong.
pub open spec fn classifies(j: Json, r: Classified) -> bool {
    match member(j, "error"@) {
        Some(err) => {
            let m = error_message(err);
            match r {
                Classified::ApiError { kind, message } => message@ == m && kind == if contains_seq(
                    m,
                    rejection_text(),
                ) {
                    ErrorKind::CredentialRejected
                } else {
                    ErrorKind::Generic
                },
                _ => false,
            }
        },
        None => match reply_content(j) {
            Some(c) => match r {
                Classified::Success { content } => content@ == c,
                _ => false,
            },
            None => r is ParseFailure,
        },
    }
}

/// The message content of a reply, read from `choices[0].message.content`.
fn content_of(j: &Json) -> (r: Option<String>)
    ensures
        match r {
            Some(c) => reply_content(*j) == Some(c@),
            None => reply_content(*j) is None,
        },
{
    let choices = match j.get_member(&"choices".to_owned()) {
        Some(x) => x,
        None => return None,
    };
    let first = match choices.get_element(0) {
        Some(x) => x,
        None => return None,
    };
    let msg = match first.get_member(&"message".to_owned()) {
        Some(x) => x,
        None => return None,
    };
    let c = match msg.get_member(&"content".to_owned()) {
        Some(x) => x,
        None => return None,
    };
    match c.as_text() {
        Some(t) => Some(t.clone()),
        None => None,
    }
}

/// Classifies a reply already read as JSON.
pub fn classify_json(j: &Json) -> (r: Classified)
    ensures
        classifies(*j, r),
{
    match j.get_member(&"error".to_owned()) {
        Some(err) => {
            let message = match err.get_member(&"message".to_owned()) {
                Some(m) => match m.as_text() {
                    Some(t) => t.clone(),
                    None => "Unknown error".to_owned(),
                },
                None => "Unknown error".to_owned(),
            };
            let kind = if text_contains(message.as_str(), "Your API key is not allowed") {
                ErrorKind::CredentialRejected
            } else {
                ErrorKind::Generic
            };
            Classified::ApiError { kind, message }
        },
        None => match content_of(j) {
            Some(content) => Classified::Success { content },
            None => Classified::ParseFailure,
        },
    }
}

/// Classifies a raw reply body. Text that is not JSON is a parse failure;
/// the document read from JSON text is classified as `classify_json` does.
pub fn classify(raw: &str) -> (r: Classified)
    ensures
        match parsed_json(raw@) {
            Some(j) => classifies(j, r),
            None => r is ParseFailure,
        },
{
    match parse_json(raw) {
        Some(j) => classify_json(&j),
        None => Classified::ParseFailure,
    }
}

} // verus!
