use blackout::classify::{classify, Classified};
use blackout::cli::{credential_from_text, plan, Plan, UsageError};
use blackout::prompt::{bearer_header, build_prompt};
use blackout::report::{join_blocks, report_for, reset_outcome, Report, ResetOutcome};

#[test]
fn prompt_inserts_both_inputs() {
    assert_eq!(
        build_prompt("rust", "read a file"),
        "You are an expert in computer science.Your mission is to give me the code using rust how to read a file. Have short answer with only code snippet(s) example"
    );
}

#[test]
fn bearer_header_prefixes_the_credential() {
    assert_eq!(bearer_header("k3y"), "Bearer k3y");
}

#[test]
fn credential_is_trimmed() {
    assert_eq!(credential_from_text("  abc123\n"), "abc123");
    assert_eq!(credential_from_text(""), "");
}

#[test]
fn reset_flag_wins() {
    assert!(matches!(plan(None, None, true), Plan::ResetCredential));
    assert!(matches!(plan(Some("a".into()), Some("b".into()), true), Plan::ResetCredential));
}

#[test]
fn both_inputs_make_a_query() {
    match plan(Some("git".into()), Some("undo a commit".into()), false) {
        Plan::Query { technology, action } => {
            assert_eq!(technology, "git");
            assert_eq!(action, "undo a commit");
        }
        other => panic!("unexpected {:?}", other),
    }
}

#[test]
fn missing_inputs_are_usage_errors() {
    assert!(matches!(plan(None, Some("x".into()), false), Plan::Usage { error: UsageError::TechnologyMissing }));
    assert!(matches!(plan(Some("x".into()), None, false), Plan::Usage { error: UsageError::ActionMissing }));
    assert!(matches!(plan(None, None, false), Plan::Usage { error: UsageError::BothMissing }));
    assert_eq!(UsageError::BothMissing.text(), "Both technology and question are missing.");
    assert_eq!(UsageError::TechnologyMissing.text(), "Technology is missing.");
    assert_eq!(UsageError::ActionMissing.text(), "Question is missing.");
}

#[test]
fn reports_follow_the_classification() {
    assert!(matches!(report_for(Classified::ParseFailure), Report::Malformed));
    assert!(matches!(
        report_for(classify("{\"error\":{\"message\":\"Your API key is not allowed\"}}")),
        Report::KeyRejected
    ));
    match report_for(classify("{\"error\":{\"message\":\"rate limited\"}}")) {
        Report::Failed { message } => assert_eq!(message, "rate limited"),
        other => panic!("unexpected {:?}", other),
    }
    assert!(matches!(
        report_for(Classified::Success { content: "no code here".to_string() }),
        Report::NoCode
    ));
    match report_for(Classified::Success { content: "```\n a \n```".to_string() }) {
        Report::Blocks { blocks } => assert_eq!(blocks, vec!["a".to_string()]),
        other => panic!("unexpected {:?}", other),
    }
}

#[test]
fn blocks_are_separated_by_a_rule() {
    assert_eq!(join_blocks(&vec![], "-"), "");
    assert_eq!(join_blocks(&vec!["a".to_string()], "-"), "a");
    assert_eq!(
        join_blocks(&vec!["a".to_string(), "b\nc".to_string(), "".to_string()], "─"),
        "a\n─\nb\nc\n─\n"
    );
}

#[test]
fn reset_replies() {
    assert_eq!(reset_outcome("{\"message\":\"ok\"}"), ResetOutcome::Reset);
    assert_eq!(reset_outcome("{\"status\":\"?\"}"), ResetOutcome::NoMessage);
    assert_eq!(reset_outcome("[1]"), ResetOutcome::NoMessage);
    assert_eq!(reset_outcome("oops"), ResetOutcome::Malformed);
}
