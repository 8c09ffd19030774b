use gurl::outcome::{classify, classify_with, timed_out, ErrorCategory, ProcessResult};

fn run(stdout: &str, stderr: &str, exit_code: i32) -> ProcessResult {
    ProcessResult { stdout: stdout.to_string(), stderr: stderr.to_string(), exit_code }
}

#[test]
fn silent_success_is_ok() {
    let o = classify(&run("", "", 0));
    assert_eq!(o.normalized_status, "OK");
    assert_eq!(o.error_category, None);
    assert_eq!(o.exit_code, Some(0));
}

#[test]
fn unimplemented_method() {
    let o = classify(&run("", "rpc error: code = Unimplemented desc = ...", 1));
    assert_eq!(o.error_category, Some(ErrorCategory::MethodNotImplemented));
    assert_eq!(o.normalized_status, "ERROR");
    assert_eq!(o.raw_stderr, "rpc error: code = Unimplemented desc = ...");
}

#[test]
fn refused_connection_despite_error_word() {
    let o = classify(&run(
        "",
        "Failed to dial target host: error: dial tcp 127.0.0.1:50051: connect: connection refused",
        1,
    ));
    assert_eq!(o.error_category, Some(ErrorCategory::ConnectionRefused));
}

#[test]
fn refusal_wins_over_unimplemented() {
    let o = classify(&run("", "connection refused; Unimplemented", 1));
    assert_eq!(o.error_category, Some(ErrorCategory::ConnectionRefused));
    let o = classify(&run("out", "Unimplemented connection refused InvalidArgument", 1));
    assert_eq!(o.error_category, Some(ErrorCategory::ConnectionRefused));
    assert_eq!(o.normalized_status, "ConnectionRefused");
}

#[test]
fn refusal_needs_exit_code_one() {
    let o = classify(&run("", "connection refused", 2));
    assert_eq!(o.error_category, Some(ErrorCategory::GenericExecutionError));
}

#[test]
fn invalid_argument_and_generic_failures() {
    let o = classify(&run("", "ERROR:\n  Code: InvalidArgument\n  Message: bad", 1));
    assert_eq!(o.error_category, Some(ErrorCategory::InvalidArgument));
    assert_eq!(o.normalized_status, "InvalidArgument");
    let o = classify(&run("partial", "boom", 2));
    assert_eq!(o.error_category, Some(ErrorCategory::GenericExecutionError));
    assert_eq!(o.normalized_status, "GenericExecutionError");
    let o = classify(&run("", "ERROR:\n  Code: NotFound\n  Message: no such thing", 1));
    assert_eq!(o.error_category, Some(ErrorCategory::GenericExecutionError));
    assert_eq!(o.normalized_status, "NotFound");
}

#[test]
fn failure_words_in_a_successful_run() {
    let o = classify(&run("{\"message\": \"Internal ERROR\"}", "", 0));
    assert_eq!(o.error_category, Some(ErrorCategory::ContentIndicatesFailure));
    assert_eq!(o.normalized_status, "ContentIndicatesFailure");
    let o = classify(&run("{}", "request Failed", 0));
    assert_eq!(o.error_category, Some(ErrorCategory::ContentIndicatesFailure));
    let o = classify(&run("{\"e\": \"NullPointerException\"}", "", 0));
    assert_eq!(o.error_category, Some(ErrorCategory::ContentIndicatesFailure));
}

#[test]
fn success_reports_status_code() {
    let o = classify(&run("{\"id\": 1}", "Response trailers received:\nCode: NotFound", 0));
    assert_eq!(o.error_category, None);
    assert_eq!(o.normalized_status, "NotFound");
    let o = classify(&run("{\"id\": 1}", "", 0));
    assert_eq!(o.normalized_status, "OK");
}

#[test]
fn empty_stdout_with_stderr_is_an_error() {
    let o = classify(&run("", "warning: nothing to show", 0));
    assert_eq!(o.error_category, Some(ErrorCategory::GenericExecutionError));
    assert_eq!(o.normalized_status, "OK");
}

#[test]
fn classification_from_given_findings() {
    let r = run("", "something", 0);
    let o = classify_with(&r, Some("Unavailable".to_string()), false);
    assert_eq!(o.normalized_status, "Unavailable");
    assert_eq!(o.error_category, Some(ErrorCategory::GenericExecutionError));
    let o = classify_with(&run("data", "", 0), None, true);
    assert_eq!(o.error_category, Some(ErrorCategory::ContentIndicatesFailure));
    let o = classify_with(&run("data", "", 0), None, false);
    assert_eq!(o.error_category, None);
    assert_eq!(o.normalized_status, "OK");
}

#[test]
fn timeout_outcome() {
    let o = timed_out("half".to_string(), "".to_string());
    assert_eq!(o.error_category, Some(ErrorCategory::Timeout));
    assert_eq!(o.normalized_status, "Timeout");
    assert_eq!(o.raw_stdout, "half");
    assert_eq!(o.exit_code, None);
}

#[test]
fn category_names() {
    assert_eq!(ErrorCategory::ConnectionRefused.name(), "ConnectionRefused");
    assert_eq!(ErrorCategory::MethodNotImplemented.name(), "MethodNotImplemented");
    assert_eq!(ErrorCategory::InvalidArgument.name(), "InvalidArgument");
    assert_eq!(ErrorCategory::ContentIndicatesFailure.name(), "ContentIndicatesFailure");
    assert_eq!(ErrorCategory::GenericExecutionError.name(), "GenericExecutionError");
    assert_eq!(ErrorCategory::Timeout.name(), "Timeout");
}
