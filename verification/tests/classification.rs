use gemini_ui::classify::{
    classify, classify_launch, classify_with_payload, is_quota_signal, read_payload,
    ClassifiedError, ErrorPayload, Outcome,
};

fn failed(stderr: &str) -> Outcome {
    Outcome { success: false, stdout: "ignored".to_string(), stderr: stderr.to_string() }
}

fn parsed(text: &str) -> serde_json::Value {
    serde_json::from_str(text).unwrap()
}

#[test]
fn success_returns_stdout_verbatim() {
    let outcome = Outcome {
        success: true,
        stdout: "answer\n".to_string(),
        stderr: "[{\"error\":{\"code\":429,\"message\":\"Quota exceeded\"}}]".to_string(),
    };
    assert_eq!(classify(outcome), Ok("answer\n".to_string()));
}

#[test]
fn success_with_empty_stdout() {
    let outcome = Outcome { success: true, stdout: String::new(), stderr: "warn".to_string() };
    assert_eq!(classify(outcome), Ok(String::new()));
}

#[test]
fn quota_exceeded_is_recognised() {
    let stderr = "[{\"error\":{\"code\":429,\"message\":\"Quota exceeded for this request\"}}]";
    assert_eq!(classify(failed(stderr)), Err(ClassifiedError::QuotaExceeded));
}

#[test]
fn other_429_is_a_tool_error() {
    let stderr = "[{\"error\":{\"code\":429,\"message\":\"Rate limited\"}}]";
    assert_eq!(classify(failed(stderr)), Err(ClassifiedError::ToolError(stderr.to_string())));
}

#[test]
fn non_json_stderr_is_a_tool_error() {
    assert_eq!(classify(failed("boom")), Err(ClassifiedError::ToolError("boom".to_string())));
    assert_eq!(classify(failed("")), Err(ClassifiedError::ToolError(String::new())));
}

#[test]
fn phrase_is_case_sensitive() {
    let stderr = "[{\"error\":{\"code\":429,\"message\":\"quota exceeded\"}}]";
    assert_eq!(classify(failed(stderr)), Err(ClassifiedError::ToolError(stderr.to_string())));
}

#[test]
fn phrase_may_stand_anywhere_in_the_message() {
    let stderr = "[{\"error\":{\"code\":429,\"message\":\"Error: Quota exceeded.\"}}, 7]";
    assert_eq!(classify(failed(stderr)), Err(ClassifiedError::QuotaExceeded));
}

#[test]
fn other_codes_are_tool_errors() {
    for stderr in [
        "[{\"error\":{\"code\":500,\"message\":\"Quota exceeded\"}}]",
        "[{\"error\":{\"code\":\"429\",\"message\":\"Quota exceeded\"}}]",
        "[{\"error\":{\"code\":429.0,\"message\":\"Quota exceeded\"}}]",
        "[{\"error\":{\"message\":\"Quota exceeded\"}}]",
        "[{\"error\":{\"code\":429}}]",
        "[{\"error\":{\"code\":429,\"message\":42}}]",
    ] {
        assert_eq!(classify(failed(stderr)), Err(ClassifiedError::ToolError(stderr.to_string())));
    }
}

#[test]
fn other_shapes_are_tool_errors() {
    for stderr in [
        "{\"error\":{\"code\":429,\"message\":\"Quota exceeded\"}}",
        "[]",
        "[1, {\"error\":{\"code\":429,\"message\":\"Quota exceeded\"}}]",
        "[{\"fault\":{\"code\":429,\"message\":\"Quota exceeded\"}}]",
        "[{\"error\":[429, \"Quota exceeded\"]}]",
        "[{\"error\":{\"code\":429,\"message\":\"Quota exceeded\"}}] trailing",
        "null",
    ] {
        assert_eq!(classify(failed(stderr)), Err(ClassifiedError::ToolError(stderr.to_string())));
    }
}

#[test]
fn launch_failure_keeps_the_detail() {
    assert_eq!(
        classify_launch(Err("No such file or directory (os error 2)".to_string())),
        Err(ClassifiedError::LaunchFailed("No such file or directory (os error 2)".to_string()))
    );
    assert_eq!(classify_launch(Ok(failed("boom"))), Err(ClassifiedError::ToolError("boom".to_string())));
    let ok = Outcome { success: true, stdout: "x".to_string(), stderr: String::new() };
    assert_eq!(classify_launch(Ok(ok)), Ok("x".to_string()));
}

#[test]
fn payload_is_read_from_the_first_element() {
    let doc = parsed("[{\"error\":{\"code\":7,\"message\":\"m\"}},{\"error\":{\"code\":8}}]");
    assert_eq!(
        read_payload(&doc),
        Some(ErrorPayload { code: Some(7), message: Some("m".to_string()) })
    );
    assert_eq!(
        read_payload(&parsed("[{\"error\":{\"code\":-3}}]")),
        Some(ErrorPayload { code: Some(-3), message: None })
    );
    assert_eq!(
        read_payload(&parsed("[{\"error\":{\"code\":18446744073709551615,\"message\":\"m\"}}]")),
        Some(ErrorPayload { code: None, message: Some("m".to_string()) })
    );
    assert_eq!(read_payload(&parsed("[{\"error\":5}]")), Some(ErrorPayload { code: None, message: None }));
    assert_eq!(read_payload(&parsed("[{\"other\":5}]")), None);
    assert_eq!(read_payload(&parsed("[]")), None);
    assert_eq!(read_payload(&parsed("{\"error\":{}}")), None);
    assert_eq!(read_payload(&parsed("[[{\"error\":{}}]]")), None);
}

#[test]
fn quota_signal_needs_code_and_phrase() {
    let payload = |code: Option<i64>, message: Option<&str>| {
        Some(ErrorPayload { code, message: message.map(|m| m.to_string()) })
    };
    assert!(is_quota_signal(&payload(Some(429), Some("Quota exceeded"))));
    assert!(is_quota_signal(&payload(Some(429), Some("xQuota exceededx"))));
    assert!(!is_quota_signal(&payload(Some(429), Some("Quota  exceeded"))));
    assert!(!is_quota_signal(&payload(Some(429), Some("Quota exceede"))));
    assert!(!is_quota_signal(&payload(Some(428), Some("Quota exceeded"))));
    assert!(!is_quota_signal(&payload(None, Some("Quota exceeded"))));
    assert!(!is_quota_signal(&payload(Some(429), None)));
    assert!(!is_quota_signal(&None));
}

#[test]
fn classification_from_a_payload() {
    let quota = Some(ErrorPayload { code: Some(429), message: Some("Quota exceeded".to_string()) });
    assert_eq!(classify_with_payload(failed("raw"), quota.clone()), Err(ClassifiedError::QuotaExceeded));
    assert_eq!(
        classify_with_payload(failed("raw"), None),
        Err(ClassifiedError::ToolError("raw".to_string()))
    );
    let ok = Outcome { success: true, stdout: "out".to_string(), stderr: "raw".to_string() };
    assert_eq!(classify_with_payload(ok, quota), Ok("out".to_string()));
}

#[test]
fn error_text() {
    assert_eq!(ClassifiedError::QuotaExceeded.to_text(), "GEMINI_QUOTA_EXCEEDED");
    assert_eq!(ClassifiedError::LaunchFailed("denied".to_string()).to_text(), "denied");
    assert_eq!(ClassifiedError::ToolError("boom".to_string()).to_text(), "boom");
}
