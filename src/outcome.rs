//! Classifying what the external client printed into a normalized outcome.
//!
//! Classification is total: every `(stdout, stderr, exit code)` triple has an
//! outcome, and the worst case is a generic error.

use vstd::prelude::*;
use crate::pattern::{first_group, regex_first_group};
use crate::text::{contains, has_substring};

verus! {

/// The kinds of failed remote call. Each is a successful classification,
/// returned as data.
#[derive(PartialEq, Eq, Structural, Clone, Copy, Debug)]
pub enum ErrorCategory {
    ConnectionRefused,
    MethodNotImplemented,
    InvalidArgument,
    ContentIndicatesFailure,
    GenericExecutionError,
    Timeout,
}

pub open spec fn category_name(c: ErrorCategory) -> Seq<char> {
    match c {
        ErrorCategory::ConnectionRefused => "ConnectionRefused"@,
        ErrorCategory::MethodNotImplemented => "MethodNotImplemented"@,
        ErrorCategory::InvalidArgument => "InvalidArgument"@,
        ErrorCategory::ContentIndicatesFailure => "ContentIndicatesFailure"@,
        ErrorCategory::GenericExecutionError => "GenericExecutionError"@,
        ErrorCategory::Timeout => "Timeout"@,
    }
}

impl ErrorCategory {
    /// The name of this category.
    pub fn name(&self) -> (r: String)
        ensures
            r@ == category_name(*self),
    {
        match self {
            ErrorCategory::ConnectionRefused => String::from_str("ConnectionRefused"),
            ErrorCategory::MethodNotImplemented => String::from_str("MethodNotImplemented"),
            ErrorCategory::InvalidArgument => String::from_str("InvalidArgument"),
            ErrorCategory::ContentIndicatesFailure => String::from_str("ContentIndicatesFailure"),
            ErrorCategory::GenericExecutionError => String::from_str("GenericExecutionError"),
            ErrorCategory::Timeout => String::from_str("Timeout"),
        }
    }
}

/// What a finished client process left behind. A process that ended without
/// an exit code (killed by a signal) is reported with a non-zero one.
#[derive(Clone, Debug)]
pub struct ProcessResult {
    pub stdout: String,
    pub stderr: String,
    pub exit_code: i32,
}

/// The classified result of one execution attempt. `exit_code` is `None` when
/// the process was killed for running too long.
#[derive(Clone, Debug)]
pub struct Outcome {
    pub normalized_status: String,
    pub error_category: Option<ErrorCategory>,
    pub raw_stdout: String,
    pub raw_stderr: String,
    pub exit_code: Option<i32>,
}

impl Outcome {
    /// A copy of this outcome.
    pub fn duplicate(&self) -> (r: Outcome)
        ensures
            r == *self,
    {
        Outcome {
            normalized_status: self.normalized_status.clone(),
            error_category: self.error_category,
            raw_stdout: self.raw_stdout.clone(),
            raw_stderr: self.raw_stderr.clone(),
            exit_code: self.exit_code,
        }
    }
}

/// The pattern whose group 1 is the status code that the client reports.
pub open spec fn status_pattern() -> Seq<char> {
    "Code:\\s*(\\w+)"@
}

/// The pattern of words that betray a failure inside a successful run.
pub open spec fn failure_pattern() -> Seq<char> {
    "(?i)(error|failed|exception)"@
}

/// The status code reported in `stderr`, if any.
pub open spec fn status_in(stderr: Seq<char>) -> Option<Seq<char>> {
    match regex_first_group(status_pattern(), stderr) {
        Some(Some(g)) => Some(g),
        _ => None,
    }
}

/// `text` holds one of the failure words, in any case.
pub open spec fn reports_failure(text: Seq<char>) -> bool {
    regex_first_group(failure_pattern(), text) matches Some(Some(_))
}

/// The category of a run, given whether its output holds a failure word.
///
/// A refused connection with exit code 1 wins over everything; then a
/// non-zero exit is classified by what stderr names; then a failure word in a
/// successful run; then an empty stdout beside a non-empty stderr.
pub open spec fn category_from(out: Seq<char>, err: Seq<char>, code: i32, flagged: bool) -> Option<
    ErrorCategory,
> {
    if code == 1 && has_substring(err, "connection refused"@) {
        Some(ErrorCategory::ConnectionRefused)
    } else if code != 0 {
        if has_substring(err, "Unimplemented"@) {
            Some(ErrorCategory::MethodNotImplemented)
        } else if has_substring(err, "InvalidArgument"@) {
            Some(ErrorCategory::InvalidArgument)
        } else {
            Some(ErrorCategory::GenericExecutionError)
        }
    } else if flagged {
        Some(ErrorCategory::ContentIndicatesFailure)
    } else if out.len() == 0 && err.len() > 0 {
        Some(ErrorCategory::GenericExecutionError)
    } else {
        None
    }
}

/// The normalized status of a run, given the status code found in stderr.
///
/// With an empty stdout and a non-empty stderr it is that code, else `OK` or
/// `ERROR` by the exit code. Otherwise a failed run is named by its category,
/// and a successful one by that code, else `OK`.
pub open spec fn status_from(
    out: Seq<char>,
    err: Seq<char>,
    code: i32,
    found: Option<Seq<char>>,
    category: Option<ErrorCategory>,
) -> Seq<char> {
    if out.len() == 0 && err.len() > 0 {
        match found {
            Some(s) => s,
            None => if code == 0 {
                "OK"@
            } else {
                "ERROR"@
            },
        }
    } else {
        match category {
            Some(c) => category_name(c),
            None => match found {
                Some(s) => s,
                None => "OK"@,
            },
        }
    }
}

/// The outcome of a run, given the status code found in stderr and whether
/// either stream holds a failure word.
pub open spec fn outcome_from(
    out: Seq<char>,
    err: Seq<char>,
    code: i32,
    found: Option<Seq<char>>,
    flagged: bool,
    o: Outcome,
) -> bool {
    let category = category_from(out, err, code, flagged);
    &&& o.error_category == category
    &&& o.normalized_status@ == status_from(out, err, code, found, category)
    &&& o.raw_stdout@ == out
    &&& o.raw_stderr@ == err
    &&& o.exit_code == Some(code)
}

/// The view of an optional text.
pub open spec fn opt_view(t: Option<String>) -> Option<Seq<char>> {
    match t {
        Some(s) => Some(s@),
        None => None,
    }
}

/// Classifies a run from the status code found in its stderr and whether a
/// failure word stands in either stream.
pub fn classify_with(result: &ProcessResult, found: Option<String>, flagged: bool) -> (r: Outcome)
    ensures
        outcome_from(
            result.stdout@,
            result.stderr@,
            result.exit_code,
            opt_view(found),
            flagged,
            r,
        ),
{
    let out = result.stdout.as_str();
    let err = result.stderr.as_str();
    let code = result.exit_code;
    let category = if code == 1 && contains(err, "connection refused") {
        Some(ErrorCategory::ConnectionRefused)
    } else if code != 0 {
        if contains(err, "Unimplemented") {
            Some(ErrorCategory::MethodNotImplemented)
        } else if contains(err, "InvalidArgument") {
            Some(ErrorCategory::InvalidArgument)
        } else {
            Some(ErrorCategory::GenericExecutionError)
        }
    } else if flagged {
        Some(ErrorCategory::ContentIndicatesFailure)
    } else if out.is_empty() && !err.is_empty() {
        Some(ErrorCategory::GenericExecutionError)
    } else {
        None
    };
    let status = if out.is_empty() && !err.is_empty() {
        match found {
            Some(s) => s,
            None => if code == 0 {
                String::from_str("OK")
            } else {
                String::from_str("ERROR")
            },
        }
    } else {
        match category {
            Some(c) => c.name(),
            None => match found {
                Some(s) => s,
                None => String::from_str("OK"),
            },
        }
    };
    Outcome {
        normalized_status: status,
        error_category: category,
        raw_stdout: result.stdout.clone(),
        raw_stderr: result.stderr.clone(),
        exit_code: Some(code),
    }
}

/// The status code that `stderr` reports, if any.
fn find_status(stderr: &str) -> (r: Option<String>)
    ensures
        opt_view(r) == status_in(stderr@),
{
    match first_group("Code:\\s*(\\w+)", stderr) {
        Some(Some(g)) => Some(g),
        _ => None,
    }
}

/// Whether `text` holds one of the failure words, in any case.
fn holds_failure_word(text: &str) -> (r: bool)
    ensures
        r == reports_failure(text@),
{
    match first_group("(?i)(error|failed|exception)", text) {
        Some(Some(_)) => true,
        _ => false,
    }
}

/// Classifies a finished run. Total: every triple has an outcome.
pub fn classify(result: &ProcessResult) -> (r: Outcome)
    ensures
        outcome_from(
            result.stdout@,
            result.stderr@,
            result.exit_code,
            status_in(result.stderr@),
            reports_failure(result.stdout@) || reports_failure(result.stderr@),
            r,
        ),
{
    let found = find_status(result.stderr.as_str());
    let flagged = holds_failure_word(result.stdout.as_str()) || holds_failure_word(
        result.stderr.as_str(),
    );
    classify_with(result, found, flagged)
}

/// A refused connection with exit code 1 is classified as such, whatever
/// else stderr holds and whatever the failure-word scan found.
pub proof fn lemma_refusal_wins(out: Seq<char>, err: Seq<char>, flagged: bool)
    requires
        has_substring(err, "connection refused"@),
    ensures
        category_from(out, err, 1, flagged) == Some(ErrorCategory::ConnectionRefused),
{
}

/// The outcome of a run that was killed for running too long.
pub fn timed_out(stdout: String, stderr: String) -> (r: Outcome)
    ensures
        r.error_category == Some(ErrorCategory::Timeout),
        r.normalized_status@ == category_name(ErrorCategory::Timeout),
        r.raw_stdout@ == stdout@,
        r.raw_stderr@ == stderr@,
        r.exit_code is None,
{
    Outcome {
        normalized_status: ErrorCategory::Timeout.name(),
        error_category: Some(ErrorCategory::Timeout),
        raw_stdout: stdout,
        raw_stderr: stderr,
        exit_code: None,
    }
}

} // verus!
