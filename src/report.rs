use vstd::prelude::*;
use vstd::string::StringExecFns;
use crate::classify::{Classified, ErrorKind};
use crate::extract::{extract, extracted};
use crate::json::{Json, member, parsed_json, parse_json};

verus! {

/// What the user is shown for a classified reply.
#[derive(Debug)]
pub enum Report {
    /// The reply could not be read.
    Malformed,
    /// The credential was refused: the user should reset it.
    KeyRejected,
    /// The service reported this error message.
    Failed { message: String },
    /// The reply held no complete code block.
    NoCode,
    /// The code blocks of the reply, in order.
    Blocks { blocks: Vec<String> },
}

/// Decides what to show for a classified reply, extracting the code blocks of
/// a successful one.
pub fn report_for(c: Classified) -> (r: Report)
    ensures
        match c {
            Classified::ParseFailure => r is Malformed,
            Classified::ApiError { kind: ErrorKind::CredentialRejected, .. } => r is KeyRejected,
            Classified::ApiError { kind: ErrorKind::Generic, message } => match r {
                Report::Failed { message: m } => m@ == message@,
                _ => false,
            },
            Classified::Success { content } => if extracted(content@).len() == 0 {
                r is NoCode
            } else {
                match r {
                    Report::Blocks { blocks } => blocks@.map_values(|b: String| b@) == extracted(
                        content@,
                    ),
                    _ => false,
                }
            },
        },
{
    match c {
        Classified::ParseFailure => Report::Malformed,
        Classified::ApiError { kind: ErrorKind::CredentialRejected, .. } => Report::KeyRejected,
        Classified::ApiError { kind: ErrorKind::Generic, message } => Report::Failed { message },
        Classified::Success { content } => {
            let blocks = extract(content.as_str());
            if blocks.len() == 0 {
                assert(blocks@.map_values(|b: String| b@).len() == 0);
                Report::NoCode
            } else {
                assert(blocks@.map_values(|b: String| b@).len() == blocks@.len());
                Report::Blocks { blocks }
            }
        },
    }
}

/// The blocks one after another, the line `rule` between two neighbours.
pub open spec fn joined(blocks: Seq<Seq<char>>, rule: Seq<char>) -> Seq<char>
    decreases blocks.len(),
{
    if blocks.len() == 0 {
        seq![]
    } else if blocks.len() == 1 {
        blocks[0]
    } else {
        joined(blocks.drop_last(), rule) + seq!['\n'] + rule + seq!['\n'] + blocks.last()
    }
}

/// Joins the blocks for display, separating two neighbours by the line
/// `rule` (a horizontal rule).
pub fn join_blocks(blocks: &Vec<String>, rule: &str) -> (r: String)
    ensures
        r@ == joined(blocks@.map_values(|b: String| b@), rule@),
{
    let ghost views = blocks@.map_values(|b: String| b@);
    let mut r = String::new();
    let mut i: usize = 0;
    while i < blocks.len()
        invariant
            i <= blocks@.len(),
            views == blocks@.map_values(|b: String| b@),
            r@ == joined(views.take(i as int), rule@),
        decreases blocks@.len() - i,
    {
        assert(views.take(i + 1).drop_last() =~= views.take(i as int));
        assert(views.take(i + 1).last() == blocks@[i as int]@);
        if i > 0 {
            r.append("\n");
            r.append(rule);
            r.append("\n");
            assert("\n"@ =~= seq!['\n']) by {
                reveal_strlit("\n");
            }
        } else {
            assert(views.take(1)[0] == blocks@[0]@);
        }
        r.append(blocks[i].as_str());
        i = i + 1;
    }
    assert(views.take(i as int) =~= views);
    r
}

/// What a reply to a credential reset says.
#[derive(PartialEq, Eq, Structural, Clone, Copy, Debug)]
pub enum ResetOutcome {
    /// The reply was not JSON.
    Malformed,
    /// The reply held a `message` member: the reset went through.
    Reset,
    /// The reply was JSON without a `message` member.
    NoMessage,
}

/// A JSON reset reply reports success exactly when it has a `message` member.
pub open spec fn reset_reading(j: Json) -> ResetOutcome {
    if member(j, "message"@) is Some {
        ResetOutcome::Reset
    } else {
        ResetOutcome::NoMessage
    }
}

/// Reads a reset reply already parsed as JSON.
pub fn reset_outcome_json(j: &Json) -> (r: ResetOutcome)
    ensures
        r == reset_reading(*j),
{
    match j.get_member(&"message".to_owned()) {
        Some(_) => ResetOutcome::Reset,
        None => ResetOutcome::NoMessage,
    }
}

/// Reads the raw body of a reset reply.
pub fn reset_outcome(raw: &str) -> (r: ResetOutcome)
    ensures
        match parsed_json(raw@) {
            Some(j) => r == reset_reading(j),
            None => r == ResetOutcome::Malformed,
        },
{
    match parse_json(raw) {
        Some(j) => reset_outcome_json(&j),
        None => ResetOutcome::Malformed,
    }
}

} // verus!
