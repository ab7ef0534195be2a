use tt_demo::ready::{health_ok, health_ok_given, log_matches, poll_step, JsonScalar, PollOutcome};

#[test]
fn health_requires_ready_field_true() {
    assert!(health_ok(r#"{"model_ready":true}"#, Some("model_ready"), None));
    assert!(!health_ok(r#"{"model_ready":false}"#, Some("model_ready"), None));
    assert!(!health_ok("not json", Some("model_ready"), None));
}

#[test]
fn health_checks_runner_identity() {
    let body = r#"{"model_ready":true,"runner_in_use":"qwen3-8b"}"#;
    assert!(health_ok(body, Some("model_ready"), Some("qwen3-8b")));
    assert!(!health_ok(body, Some("model_ready"), Some("skyreels")));
}

#[test]
fn log_regex_matches() {
    assert!(log_matches("... warmed up and ready ...", "warmed up and ready").unwrap());
    assert!(!log_matches("still loading", "ready").unwrap());
}

#[test]
fn health_truthiness_of_strings_and_numbers() {
    assert!(health_ok(r#"{"f":"yes"}"#, Some("f"), None));
    assert!(!health_ok(r#"{"f":"false"}"#, Some("f"), None));
    assert!(!health_ok(r#"{"f":""}"#, Some("f"), None));
    assert!(health_ok(r#"{"f":2}"#, Some("f"), None));
    assert!(health_ok(r#"{"f":-0.5}"#, Some("f"), None));
    assert!(!health_ok(r#"{"f":0}"#, Some("f"), None));
    assert!(!health_ok(r#"{"f":0.0}"#, Some("f"), None));
    assert!(!health_ok(r#"{"f":null}"#, Some("f"), None));
    assert!(!health_ok(r#"{"g":true}"#, Some("f"), None));
    assert!(health_ok(r#"[1,2]"#, None, None));
    assert!(!health_ok("", None, None));
    assert!(!health_ok(r#"{"runner_in_use":7}"#, None, Some("7")));
}

#[test]
fn bad_regex_is_an_error() {
    let e = log_matches("text", "(unclosed").unwrap_err();
    assert_eq!(e.message(), "bad regex: (unclosed");
}

#[test]
fn poll_step_decides() {
    let ok = Some(r#"{"model_ready":true}"#);
    assert_eq!(poll_step(ok, Some("model_ready"), None, 10, 5), PollOutcome::Ready);
    assert_eq!(poll_step(None, Some("model_ready"), None, 10, 5), PollOutcome::TimedOut);
    assert_eq!(poll_step(Some("{}"), Some("model_ready"), None, 5, 5), PollOutcome::TimedOut);
    assert_eq!(poll_step(Some("{}"), Some("model_ready"), None, 4, 5), PollOutcome::Retry);
}

#[test]
fn health_verdict_from_lookups() {
    let runner = || Some(Some(JsonScalar::Text("tt".to_string())));
    // not JSON at all
    assert!(!health_ok_given(None, None, None));
    // no ready field asked, no runner asked
    assert!(health_ok_given(Some(None), None, None));
    // ready field asked but the body is not JSON, or the field is absent
    assert!(!health_ok_given(runner(), Some(None), None));
    assert!(!health_ok_given(runner(), Some(Some(None)), None));
    // ready field present and true, runner matches
    assert!(health_ok_given(runner(), Some(Some(Some(JsonScalar::Bool(true)))), Some("tt")));
    // ready field false
    assert!(!health_ok_given(runner(), Some(Some(Some(JsonScalar::Bool(false)))), None));
    // runner mismatch
    assert!(!health_ok_given(runner(), None, Some("cpu")));
    // runner not a string
    assert!(!health_ok_given(Some(Some(JsonScalar::Other)), None, Some("tt")));
}
