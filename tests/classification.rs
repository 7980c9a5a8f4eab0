use blackout::classify::{classify, classify_json, Classified, ErrorKind};
use blackout::extract::extract;
use blackout::json::{parse_json, Json};

#[test]
fn refused_credential_is_recognised() {
    match classify("{\"error\":{\"message\":\"Your API key is not allowed today\"}}") {
        Classified::ApiError { kind, message } => {
            assert_eq!(kind, ErrorKind::CredentialRejected);
            assert_eq!(message, "Your API key is not allowed today");
        }
        other => panic!("unexpected {:?}", other),
    }
}

#[test]
fn other_api_error_is_generic() {
    match classify("{\"error\":{\"message\":\"rate limited\"}}") {
        Classified::ApiError { kind, message } => {
            assert_eq!(kind, ErrorKind::Generic);
            assert_eq!(message, "rate limited");
        }
        other => panic!("unexpected {:?}", other),
    }
}

#[test]
fn error_without_message_falls_back() {
    match classify("{\"error\":{\"code\":7}}") {
        Classified::ApiError { kind, message } => {
            assert_eq!(kind, ErrorKind::Generic);
            assert_eq!(message, "Unknown error");
        }
        other => panic!("unexpected {:?}", other),
    }
}

#[test]
fn html_body_is_a_parse_failure() {
    assert!(matches!(classify("<html>502</html>"), Classified::ParseFailure));
}

#[test]
fn truncated_json_is_a_parse_failure() {
    assert!(matches!(classify("{\"choices\":[{\"mess"), Classified::ParseFailure));
}

#[test]
fn empty_choices_is_a_parse_failure() {
    assert!(matches!(classify("{\"choices\":[]}"), Classified::ParseFailure));
}

#[test]
fn non_string_content_is_a_parse_failure() {
    assert!(matches!(
        classify("{\"choices\":[{\"message\":{\"content\":42}}]}"),
        Classified::ParseFailure
    ));
}

#[test]
fn content_is_a_success() {
    let raw = "{\"choices\":[{\"message\":{\"content\":\"text ```go\\nfmt.Println(1)\\n``` more\"}}]}";
    match classify(raw) {
        Classified::Success { content } => {
            assert_eq!(content, "text ```go\nfmt.Println(1)\n``` more");
            // Neither marker begins a line of its own, so no block is fenced.
            assert!(extract(&content).is_empty());
        }
        other => panic!("unexpected {:?}", other),
    }
}

#[test]
fn fenced_content_is_extracted() {
    let raw = "{\"choices\":[{\"message\":{\"content\":\"text\\n```go\\nfmt.Println(1)\\n```\\nmore\"}}]}";
    match classify(raw) {
        Classified::Success { content } => {
            assert_eq!(extract(&content), vec!["fmt.Println(1)".to_string()]);
        }
        other => panic!("unexpected {:?}", other),
    }
}

#[test]
fn error_wins_over_content() {
    let raw = "{\"error\":{\"message\":\"x\"},\"choices\":[{\"message\":{\"content\":\"c\"}}]}";
    assert!(matches!(classify(raw), Classified::ApiError { .. }));
}

#[test]
fn parse_json_builds_the_tree() {
    let j = parse_json("{\"a\":[1,\"two\",null,true]}").expect("valid JSON");
    match j {
        Json::Object(fields) => {
            assert_eq!(fields.len(), 1);
            assert_eq!(fields[0].0, "a");
            match &fields[0].1 {
                Json::Array(items) => {
                    assert_eq!(items.len(), 4);
                    assert!(matches!(&items[0], Json::Number(n) if n == "1"));
                    assert!(matches!(&items[1], Json::Str(s) if s == "two"));
                    assert!(matches!(&items[2], Json::Null));
                    assert!(matches!(&items[3], Json::Bool(true)));
                }
                _ => panic!("not an array"),
            }
        }
        _ => panic!("not an object"),
    }
    assert!(parse_json("nope").is_none());
}

#[test]
fn lookups_on_a_built_tree() {
    let j = Json::Object(vec![(
        "error".to_string(),
        Json::Object(vec![("message".to_string(), Json::Str("boom".to_string()))]),
    )]);
    assert!(j.get_member(&"missing".to_string()).is_none());
    assert!(j.get_element(0).is_none());
    match classify_json(&j) {
        Classified::ApiError { kind, message } => {
            assert_eq!(kind, ErrorKind::Generic);
            assert_eq!(message, "boom");
        }
        other => panic!("unexpected {:?}", other),
    }
}
