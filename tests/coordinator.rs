use gurl::command::EngineError;
use gurl::coordinator::{start, step, Action, Attempt, Event};
use gurl::outcome::{ErrorCategory, Outcome, ProcessResult};
use gurl::record::RequestRecord;
use gurl::request::{GrpcRequest, RequestSpec};

fn spec() -> RequestSpec {
    RequestSpec::Grpc(GrpcRequest {
        address: "localhost:50051".to_string(),
        service: Some("helloworld.Greeter".to_string()),
        method: "SayHello".to_string(),
        metadata: None,
        payload: None,
        proto_file: None,
    })
}

fn finished(stdout: &str, stderr: &str, exit_code: i32) -> Event {
    Event::Finished(ProcessResult { stdout: stdout.to_string(), stderr: stderr.to_string(), exit_code })
}

/// Runs one attempt to the store's answer; returns the inserted record and
/// the answer given to the caller.
fn run_attempt(process: Event, now: u64, stored: bool) -> (RequestRecord, Outcome, Attempt) {
    let (a, act) = start(Some("me@x.io".to_string()), spec()).unwrap();
    assert!(matches!(act, Action::Run(ref c) if c.program == "grpcurl"));
    let (a, act) = step(a, process);
    assert!(matches!(a, Attempt::Executed { .. }));
    assert!(matches!(act, Action::ReadClock));
    let (a, act) = step(a, Event::Clock(now));
    assert!(matches!(a, Attempt::Classified { .. }));
    let rec = match act {
        Action::Insert(r) => r,
        other => panic!("expected an insert, got {:?}", other),
    };
    let (a, act) = step(a, Event::Stored(stored));
    let outcome = match act {
        Action::Respond(o) => o,
        other => panic!("expected an answer, got {:?}", other),
    };
    (rec, outcome, a)
}

#[test]
fn store_failure_keeps_the_answer() {
    let (_, good, a1) = run_attempt(finished("{\"message\": \"hi\"}", "", 0), 10, true);
    let (_, bad, a2) = run_attempt(finished("{\"message\": \"hi\"}", "", 0), 10, false);
    assert!(matches!(a1, Attempt::Recorded));
    assert!(matches!(a2, Attempt::RecordFailed));
    assert_eq!(good.normalized_status, bad.normalized_status);
    assert_eq!(good.error_category, bad.error_category);
    assert_eq!(good.raw_stdout, bad.raw_stdout);
    assert_eq!(good.exit_code, bad.exit_code);
    assert_eq!(bad.normalized_status, "OK");
}

#[test]
fn repeated_attempts_are_distinct_records() {
    let (r1, o1, _) = run_attempt(finished("{}", "", 0), 1_000, true);
    let (r2, o2, _) = run_attempt(finished("{}", "", 0), 1_001, true);
    assert_eq!(o1.normalized_status, o2.normalized_status);
    assert_ne!(r1.timestamp_ms, r2.timestamp_ms);
    assert_eq!(r1.owner, "me@x.io");
    assert!(!r1.hidden && !r2.hidden);
}

#[test]
fn timeout_and_refusal_flow() {
    let (rec, o, _) = run_attempt(
        Event::TimedOut { stdout: String::new(), stderr: String::new() },
        5,
        true,
    );
    assert_eq!(o.error_category, Some(ErrorCategory::Timeout));
    assert_eq!(rec.outcome.error_category, Some(ErrorCategory::Timeout));
    let (_, o, _) = run_attempt(finished("", "dial tcp 127.0.0.1:50051: connect: connection refused", 1), 5, true);
    assert_eq!(o.error_category, Some(ErrorCategory::ConnectionRefused));
}

#[test]
fn spawn_failure_aborts() {
    let (a, _) = start(None, spec()).unwrap();
    let (a, act) = step(a, Event::SpawnFailed);
    assert!(matches!(a, Attempt::Aborted));
    assert!(matches!(act, Action::Fail(EngineError::SpawnFailed)));
}

#[test]
fn invalid_request_is_refused_at_start() {
    let bad = RequestSpec::Grpc(GrpcRequest {
        address: "localhost:1".to_string(),
        service: None,
        method: "-import-path=/".to_string(),
        metadata: None,
        payload: None,
        proto_file: None,
    });
    assert!(matches!(start(None, bad), Err(EngineError::InvalidSpec)));
}

#[test]
fn out_of_order_events_wait() {
    let (a, _) = start(None, spec()).unwrap();
    let (a, act) = step(a, Event::Clock(3));
    assert!(matches!(act, Action::Wait));
    assert!(matches!(a, Attempt::Built { .. }));
    let (a, act) = step(a, Event::Stored(true));
    assert!(matches!(act, Action::Wait));
    let (_, act) = step(a, finished("", "", 0));
    assert!(matches!(act, Action::ReadClock));
}
