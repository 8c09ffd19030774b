//! The life of one execution attempt, as a state machine.
//!
//! The caller performs each action (start the client, read the clock, write
//! to the history store, answer) and hands back what happened as an event.
//! An attempt is never retried and never merged with another: each one that
//! runs yields its own record.

use vstd::prelude::*;
use crate::command::{build, CommandLine, EngineError};
use crate::outcome::{
    category_name, classify, outcome_from, reports_failure, status_in, timed_out, ErrorCategory,
    Outcome, ProcessResult,
};
use crate::record::{owner_name, owner_of, record, RequestRecord};
use crate::request::{spec_valid, RequestSpec};

verus! {

/// Where an attempt stands.
#[derive(Debug)]
pub enum Attempt {
    /// The command line is built; the client is to run.
    Built { owner: String, spec: RequestSpec },
    /// The client has finished and its output is classified; the clock is to
    /// be read for the record.
    Executed { owner: String, spec: RequestSpec, outcome: Outcome },
    /// The record is handed to the history store; its answer is awaited.
    Classified { outcome: Outcome },
    /// The record was stored, and the caller answered.
    Recorded,
    /// The store failed, and the caller was answered all the same.
    RecordFailed,
    /// The client could not be started.
    Aborted,
}

/// What happened since the last action.
#[derive(Debug)]
pub enum Event {
    /// The client finished.
    Finished(ProcessResult),
    /// The client ran too long and was killed, leaving this output.
    TimedOut { stdout: String, stderr: String },
    /// The client could not be started.
    SpawnFailed,
    /// The clock read this many milliseconds since the epoch.
    Clock(u64),
    /// The history store answered: `true` when the record was written.
    Stored(bool),
}

/// What the caller is to do next.
#[derive(Debug)]
pub enum Action {
    Run(CommandLine),
    ReadClock,
    Insert(RequestRecord),
    Respond(Outcome),
    Fail(EngineError),
    /// The event does not apply here; nothing changes.
    Wait,
}

/// `(b, act)` is what `a` becomes, and asks for, on event `e`.
pub open spec fn transition(a: Attempt, e: Event, b: Attempt, act: Action) -> bool {
    match (a, e) {
        (Attempt::Built { owner, spec }, Event::Finished(res)) => b matches Attempt::Executed {
            owner: o2,
            spec: s2,
            outcome,
        } && o2 == owner && s2 == spec && outcome_from(
            res.stdout@,
            res.stderr@,
            res.exit_code,
            status_in(res.stderr@),
            reports_failure(res.stdout@) || reports_failure(res.stderr@),
            outcome,
        ) && act is ReadClock,
        (Attempt::Built { owner, spec }, Event::TimedOut { stdout, stderr }) => b matches Attempt::Executed {
            owner: o2,
            spec: s2,
            outcome,
        } && o2 == owner && s2 == spec && outcome.error_category == Some(ErrorCategory::Timeout)
            && outcome.normalized_status@ == category_name(ErrorCategory::Timeout)
            && outcome.raw_stdout@ == stdout@ && outcome.raw_stderr@ == stderr@
            && outcome.exit_code is None && act is ReadClock,
        (Attempt::Built { .. }, Event::SpawnFailed) => b is Aborted && act == Action::Fail(
            EngineError::SpawnFailed,
        ),
        (Attempt::Executed { owner, spec, outcome }, Event::Clock(t)) => {
            &&& b == (Attempt::Classified { outcome })
            &&& act matches Action::Insert(r) && r.owner == owner && r.spec == spec && r.outcome
                == outcome && r.timestamp_ms == t && !r.hidden
        },
        (Attempt::Classified { outcome }, Event::Stored(ok)) => (if ok {
            b is Recorded
        } else {
            b is RecordFailed
        }) && act == Action::Respond(outcome),
        _ => b == a && act is Wait,
    }
}

/// Starts an attempt for `owner` (`anon` when absent): `InvalidSpec` exactly
/// when the request breaks its invariant, else the command line to run.
pub fn start(owner: Option<String>, spec: RequestSpec) -> (r: Result<(Attempt, Action), EngineError>)
    ensures
        r is Err <==> !spec_valid(spec),
        r is Err ==> r == Err::<(Attempt, Action), EngineError>(EngineError::InvalidSpec),
        r matches Ok((a, act)) ==> a matches Attempt::Built { owner: o, spec: s } && o@ == owner_of(
            owner,
        ) && s == spec && act is Run,
{
    match build(&spec) {
        Err(e) => Err(e),
        Ok(line) => Ok((Attempt::Built { owner: owner_name(owner), spec }, Action::Run(line))),
    }
}

/// Moves an attempt on by one event.
pub fn step(a: Attempt, e: Event) -> (r: (Attempt, Action))
    ensures
        transition(a, e, r.0, r.1),
{
    match (a, e) {
        (Attempt::Built { owner, spec }, Event::Finished(res)) => {
            let outcome = classify(&res);
            (Attempt::Executed { owner, spec, outcome }, Action::ReadClock)
        },
        (Attempt::Built { owner, spec }, Event::TimedOut { stdout, stderr }) => {
            let outcome = timed_out(stdout, stderr);
            (Attempt::Executed { owner, spec, outcome }, Action::ReadClock)
        },
        (Attempt::Built { .. }, Event::SpawnFailed) => (
            Attempt::Aborted,
            Action::Fail(EngineError::SpawnFailed),
        ),
        (Attempt::Executed { owner, spec, outcome }, Event::Clock(t)) => {
            let kept = outcome.duplicate();
            let rec = record(owner, spec, outcome, t);
            (Attempt::Classified { outcome: kept }, Action::Insert(rec))
        },
        (Attempt::Classified { outcome }, Event::Stored(ok)) => {
            if ok {
                (Attempt::Recorded, Action::Respond(outcome))
            } else {
                (Attempt::RecordFailed, Action::Respond(outcome))
            }
        },
        (a, _) => (a, Action::Wait),
    }
}

/// A failing history store changes nothing that the caller sees: whatever
/// the store answers, the caller gets the classified outcome.
pub proof fn lemma_store_failure_keeps_outcome(
    a: Attempt,
    good: Attempt,
    good_act: Action,
    bad: Attempt,
    bad_act: Action,
)
    requires
        a is Classified,
        transition(a, Event::Stored(true), good, good_act),
        transition(a, Event::Stored(false), bad, bad_act),
    ensures
        good_act == bad_act,
        good_act == Action::Respond(a->Classified_outcome),
        good is Recorded,
        bad is RecordFailed,
{
}

/// Attempts are never merged: every attempt whose client has finished asks
/// for one insert of its own record, stamped with its own clock reading, even
/// when two attempts carry the same owner, request and outcome. Two readings
/// that differ give two different records.
pub proof fn lemma_each_attempt_records(
    a1: Attempt,
    t1: u64,
    b1: Attempt,
    act1: Action,
    a2: Attempt,
    t2: u64,
    b2: Attempt,
    act2: Action,
)
    requires
        a1 is Executed,
        a2 is Executed,
        transition(a1, Event::Clock(t1), b1, act1),
        transition(a2, Event::Clock(t2), b2, act2),
    ensures
        act1 matches Action::Insert(r1) && r1.timestamp_ms == t1 && !r1.hidden,
        act2 matches Action::Insert(r2) && r2.timestamp_ms == t2 && !r2.hidden,
        t1 != t2 ==> act1 != act2,
{
}

} // verus!
