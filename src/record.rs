//! The persisted record of one execution attempt.

use vstd::prelude::*;
use crate::command::{args_of, build, client_program, CommandLine};
use crate::models::Request;
use crate::numbers::{digits_of, u64_text};
use crate::outcome::Outcome;
use crate::request::{method_word, spec_valid, RequestSpec};
use crate::text::{join_texts, join_with, texts};

verus! {

/// One attempt, as handed to the history store: the request, its outcome,
/// who made it and when. Only `hidden` may change afterwards.
#[derive(Clone, Debug)]
pub struct RequestRecord {
    pub owner: String,
    pub spec: RequestSpec,
    pub outcome: Outcome,
    pub timestamp_ms: u64,
    pub hidden: bool,
}

/// The owner of an attempt: the caller's identity, `anon` without one.
pub open spec fn owner_of(owner: Option<String>) -> Seq<char> {
    match owner {
        Some(o) => o@,
        None => "anon"@,
    }
}

/// The owner of an attempt.
pub fn owner_name(owner: Option<String>) -> (r: String)
    ensures
        r@ == owner_of(owner),
{
    match owner {
        Some(o) => o,
        None => String::from_str("anon"),
    }
}

/// The record of an attempt, stamped with `now_ms` and not hidden.
pub fn record(owner: String, spec: RequestSpec, outcome: Outcome, now_ms: u64) -> (r:
    RequestRecord)
    ensures
        r.owner == owner,
        r.spec == spec,
        r.outcome == outcome,
        r.timestamp_ms == now_ms,
        !r.hidden,
{
    RequestRecord { owner, spec, outcome, timestamp_ms: now_ms, hidden: false }
}

/// The command line of a request as one text: the program, then each
/// argument, separated by single spaces.
pub open spec fn command_text(spec: RequestSpec) -> Seq<char> {
    join_with(seq![client_program(spec.spec_protocol())] + args_of(spec), ' ')
}

/// The method a request calls: its HTTP method, or its gRPC method name.
pub open spec fn method_label(spec: RequestSpec) -> Seq<char> {
    match spec {
        RequestSpec::Http(h) => method_word(h.method),
        RequestSpec::Grpc(g) => g.method@,
    }
}

impl RequestRecord {
    /// Marks this record hidden; nothing else changes.
    pub fn mark_hidden(&mut self)
        ensures
            final(self).hidden,
            final(self).owner == old(self).owner,
            final(self).spec == old(self).spec,
            final(self).outcome == old(self).outcome,
            final(self).timestamp_ms == old(self).timestamp_ms,
    {
        self.hidden = true;
    }

    /// The flat row that the history store keeps for this record.
    pub fn to_row(&self) -> (r: Request)
        requires
            spec_valid(self.spec),
        ensures
            r.id is None,
            r.user_email == Some(self.owner),
            r.command@ == command_text(self.spec),
            r.status == Some(self.outcome.normalized_status),
            r.method matches Some(m) && m@ == method_label(self.spec),
            r.date@ == digits_of(self.timestamp_ms as nat),
            r.hidden == self.hidden,
    {
        // A valid request always builds; the other arm is never taken.
        let line = match build(&self.spec) {
            Ok(c) => c,
            Err(_) => CommandLine { program: String::new(), args: Vec::new() },
        };
        let mut words: Vec<String> = Vec::new();
        words.push(line.program.clone());
        let mut j: usize = 0;
        while j < line.args.len()
            invariant
                j <= line.args@.len(),
                texts(words@) == seq![line.program@] + texts(line.args@).take(j as int),
            decreases line.args@.len() - j,
        {
            let ghost before = texts(words@);
            words.push(line.args[j].clone());
            assert(texts(words@) =~= before.push(line.args@[j as int]@));
            assert(texts(words@) =~= seq![line.program@] + texts(line.args@).take(j + 1));
            j += 1;
        }
        assert(texts(line.args@).take(j as int) =~= texts(line.args@));
        let method = match &self.spec {
            RequestSpec::Http(h) => h.method.word(),
            RequestSpec::Grpc(g) => g.method.clone(),
        };
        Request {
            id: None,
            user_email: Some(self.owner.clone()),
            command: join_texts(&words, ' '),
            status: Some(self.outcome.normalized_status.clone()),
            method: Some(method),
            date: u64_text(self.timestamp_ms),
            hidden: self.hidden,
        }
    }
}

} // verus!
