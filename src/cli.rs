use vstd::prelude::*;
use crate::extract::{trim_text, trimmed};

verus! {

/// Why a command line asks for nothing that can be done.
#[derive(PartialEq, Eq, Structural, Clone, Copy, Debug)]
pub enum UsageError {
    TechnologyMissing,
    ActionMissing,
    BothMissing,
}

/// The text shown for each usage error.
pub open spec fn usage_text(e: UsageError) -> Seq<char> {
    match e {
        UsageError::TechnologyMissing => "Technology is missing."@,
        UsageError::ActionMissing => "Question is missing."@,
        UsageError::BothMissing => "Both technology and question are missing."@,
    }
}

impl UsageError {
    /// The message shown to the user.
    pub fn text(&self) -> (r: String)
        ensures
            r@ == usage_text(*self),
    {
        match self {
            UsageError::TechnologyMissing => "Technology is missing.".to_owned(),
            UsageError::ActionMissing => "Question is missing.".to_owned(),
            UsageError::BothMissing => "Both technology and question are missing.".to_owned(),
        }
    }
}

/// What one run of the tool does.
#[derive(Debug)]
pub enum Plan {
    /// Reset the credential's allowed address, then stop.
    ResetCredential,
    /// Ask how to do `action` with `technology`.
    Query { technology: String, action: String },
    /// Report a usage error.
    Usage { error: UsageError },
}

/// Decides what to do from the command line: the reset flag wins; otherwise
/// both a technology and an action are needed.
pub fn plan(technology: Option<String>, action: Option<String>, reset: bool) -> (r: Plan)
    ensures
        reset ==> r is ResetCredential,
        !reset ==> match (technology, action) {
            (Some(t), Some(a)) => match r {
                Plan::Query { technology: rt, action: ra } => rt@ == t@ && ra@ == a@,
                _ => false,
            },
            (None, Some(_)) => r == (Plan::Usage { error: UsageError::TechnologyMissing }),
            (Some(_), None) => r == (Plan::Usage { error: UsageError::ActionMissing }),
            (None, None) => r == (Plan::Usage { error: UsageError::BothMissing }),
        },
{
    if reset {
        return Plan::ResetCredential;
    }
    match (technology, action) {
        (Some(technology), Some(action)) => Plan::Query { technology, action },
        (None, Some(_)) => Plan::Usage { error: UsageError::TechnologyMissing },
        (Some(_), None) => Plan::Usage { error: UsageError::ActionMissing },
        (None, None) => Plan::Usage { error: UsageError::BothMissing },
    }
}

/// The credential stored in the configuration file's text: that text with
/// surrounding whitespace taken off.
pub fn credential_from_text(text: &str) -> (r: String)
    ensures
        r@ == trimmed(text@),
{
    trim_text(text).to_owned()
}

} // verus!
