use vstd::prelude::*;
use vstd::string::StringExecFns;

verus! {

/// The chat-completion endpoint that answers a prompt.
pub const COMPLETIONS_URL: &'static str = "https://api.pawan.krd/unfiltered/v1/chat/completions";

/// The endpoint that allows the caller's address for the credential again.
pub const RESET_URL: &'static str = "https://api.pawan.krd/resetip";

/// The model asked for.
pub const MODEL: &'static str = "gpt-3.5-turbo";

/// The most tokens the reply may use.
pub const MAX_TOKENS: u32 = 100;

/// The system-role message sent before the prompt.
pub const PERSONA: &'static str = "You are a helpful assistant in computer science.";

/// The name of the file, in the per-user configuration directory, that holds
/// the credential.
pub const CONFIG_FILE: &'static str = "config";

/// The prompt for doing `action` with `technology`: a fixed instruction with
/// the two inputs inserted verbatim.
pub open spec fn prompt_text(technology: Seq<char>, action: Seq<char>) -> Seq<char> {
    "You are an expert in computer science.Your mission is to give me the code using "@
        + technology + " how to "@ + action
        + ". Have short answer with only code snippet(s) example"@
}

/// Builds the prompt sent as the user's message.
pub fn build_prompt(technology: &str, action: &str) -> (r: String)
    ensures
        r@ == prompt_text(technology@, action@),
{
    let mut r = "You are an expert in computer science.Your mission is to give me the code using ".to_owned();
    r.append(technology);
    r.append(" how to ");
    r.append(action);
    r.append(". Have short answer with only code snippet(s) example");
    r
}

/// The value of the `Authorization` header for a credential.
pub fn bearer_header(credential: &str) -> (r: String)
    ensures
        r@ == "Bearer "@ + credential@,
{
    let mut r = "Bearer ".to_owned();
    r.append(credential);
    r
}

} // verus!
