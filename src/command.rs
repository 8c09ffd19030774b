//! Turning a request into the argument vector of an external client.
//!
//! Arguments are discrete tokens, never one shell string. Every free-text
//! value travels as the token after its flag; the positional target comes
//! last, and a request whose positional fields could be read as flags is
//! refused.

use vstd::prelude::*;
use crate::request::{
    block_text, has_service, method_word, GrpcRequest, HttpRequest, Protocol, RequestSpec,
    spec_valid, positional,
};
use crate::text::{chars_of, cut_pieces, lemma_fields_nonempty, lemma_fields_unbroken, unbroken, cut_text, same_text, texts, Cut};
use vstd::string::StrSliceExecFns;

verus! {

/// Why the engine could not produce an outcome for a request.
#[derive(PartialEq, Eq, Structural, Clone, Copy, Debug)]
pub enum EngineError {
    /// The request breaks its invariant (see `spec_valid`).
    InvalidSpec,
    /// The external client could not be started.
    SpawnFailed,
}

/// A program and the arguments to start it with.
#[derive(Clone, Debug)]
pub struct CommandLine {
    pub program: String,
    pub args: Vec<String>,
}

pub open spec fn header_flag() -> Seq<char> {
    "-H"@
}

pub open spec fn data_flag() -> Seq<char> {
    "-d"@
}

/// The flag that lets the HTTP client skip transport security.
pub open spec fn http_insecure_flag() -> Seq<char> {
    "--insecure"@
}

/// The flag that lets the gRPC client speak without TLS.
pub open spec fn grpc_insecure_flag() -> Seq<char> {
    "-plaintext"@
}

/// The program that runs a request of the given protocol.
pub open spec fn client_program(p: Protocol) -> Seq<char> {
    match p {
        Protocol::Http => "curl"@,
        Protocol::Grpc => "grpcurl"@,
    }
}

/// The longest prefix of `s` without a character that `stop` accepts.
pub open spec fn prefix_before(s: Seq<char>, stop: spec_fn(char) -> bool) -> Seq<char>
    decreases s.len(),
{
    if s.len() == 0 || stop(s[0]) {
        seq![]
    } else {
        seq![s[0]] + prefix_before(s.drop_first(), stop)
    }
}

pub open spec fn colon() -> spec_fn(char) -> bool {
    |c: char| c == ':'
}

pub open spec fn host_end() -> spec_fn(char) -> bool {
    |c: char| c == ':' || c == '/' || c == '?' || c == '#'
}

/// The host that a URL or an address names: after a `scheme://` if there is
/// one, up to the first `:`, `/`, `?` or `#`.
pub open spec fn host_of(t: Seq<char>) -> Seq<char> {
    let k: int = prefix_before(t, colon()).len() as int;
    let rest = if k + 3 <= t.len() && t.subrange(k, k + 3) == seq![':', '/', '/'] {
        t.skip(k + 3)
    } else {
        t
    };
    prefix_before(rest, host_end())
}

/// The host is the local machine.
pub open spec fn is_loopback(host: Seq<char>) -> bool {
    host == "localhost"@ || host == "127.0.0.1"@
}

/// `flag` before each of `vals`: one pair of tokens per value.
pub open spec fn flag_pairs(flag: Seq<char>, vals: Seq<Seq<char>>) -> Seq<Seq<char>>
    decreases vals.len(),
{
    if vals.len() == 0 {
        seq![]
    } else {
        flag_pairs(flag, vals.drop_last()) + seq![flag, vals.last()]
    }
}

/// `flag` and the value, if there is one.
pub open spec fn opt_pair(flag: Seq<char>, v: Option<String>) -> Seq<Seq<char>> {
    match v {
        Some(x) => seq![flag, x@],
        None => seq![],
    }
}

/// The insecure-transport flag, for a target on the local machine.
pub open spec fn insecure_part(flag: Seq<char>, target: Seq<char>) -> Seq<Seq<char>> {
    if is_loopback(host_of(target)) {
        seq![flag]
    } else {
        seq![]
    }
}

/// The segments of a header or metadata block.
pub open spec fn block_segments(b: Option<String>) -> Seq<Seq<char>> {
    cut_pieces(block_text(b), Cut::Fields)
}

/// The tokens of an HTTP request before its headers.
pub open spec fn http_lead(h: HttpRequest) -> Seq<Seq<char>> {
    insecure_part(http_insecure_flag(), h.url@) + seq!["-X"@, method_word(h.method)] + match h.origin {
        Some(o) => seq![header_flag(), "Origin: "@ + o@],
        None => seq![],
    }
}

/// The tokens of an HTTP request after its headers.
pub open spec fn http_tail(h: HttpRequest) -> Seq<Seq<char>> {
    opt_pair(data_flag(), h.body) + seq![h.url@]
}

pub open spec fn http_args(h: HttpRequest) -> Seq<Seq<char>> {
    http_lead(h) + flag_pairs(header_flag(), block_segments(h.headers)) + http_tail(h)
}

/// `service/method` when a service is given, else `method`.
pub open spec fn grpc_target(g: GrpcRequest) -> Seq<char> {
    if has_service(g) {
        g.service->0@ + "/"@ + g.method@
    } else {
        g.method@
    }
}

/// The tokens of a gRPC request before its metadata.
pub open spec fn grpc_lead(g: GrpcRequest) -> Seq<Seq<char>> {
    insecure_part(grpc_insecure_flag(), g.address@) + opt_pair("-proto"@, g.proto_file)
}

/// The tokens of a gRPC request after its metadata.
pub open spec fn grpc_tail(g: GrpcRequest) -> Seq<Seq<char>> {
    opt_pair(data_flag(), g.payload) + seq![g.address@, grpc_target(g)]
}

pub open spec fn grpc_args(g: GrpcRequest) -> Seq<Seq<char>> {
    grpc_lead(g) + flag_pairs(header_flag(), block_segments(g.metadata)) + grpc_tail(g)
}

/// The arguments that a request is executed with.
pub open spec fn args_of(r: RequestSpec) -> Seq<Seq<char>> {
    match r {
        RequestSpec::Http(h) => http_args(h),
        RequestSpec::Grpc(g) => grpc_args(g),
    }
}

/// The target of a request: its URL, or its address.
pub open spec fn target_of(r: RequestSpec) -> Seq<char> {
    match r {
        RequestSpec::Http(h) => h.url@,
        RequestSpec::Grpc(g) => g.address@,
    }
}

/// The insecure-transport flag of a request's protocol.
pub open spec fn insecure_flag_of(r: RequestSpec) -> Seq<char> {
    match r {
        RequestSpec::Http(_) => http_insecure_flag(),
        RequestSpec::Grpc(_) => grpc_insecure_flag(),
    }
}

/// The first position at or after `from` that holds a character `stop`
/// accepts (`host_end` when `at_host_end`, else `colon`), or the length.
fn scan_until(c: &Vec<char>, from: usize, at_host_end: bool) -> (r: usize)
    requires
        from <= c@.len(),
    ensures
        from <= r <= c@.len(),
        c@.subrange(from as int, r as int) == prefix_before(
            c@.skip(from as int),
            if at_host_end {
                host_end()
            } else {
                colon()
            },
        ),
{
    let ghost stop = if at_host_end {
        host_end()
    } else {
        colon()
    };
    let mut k = from;
    while k < c.len() && !(c[k] == ':' || (at_host_end && (c[k] == '/' || c[k] == '?' || c[k]
        == '#')))
        invariant
            from <= k <= c@.len(),
            stop == (if at_host_end {
                host_end()
            } else {
                colon()
            }),
            prefix_before(c@.skip(from as int), stop) == c@.subrange(from as int, k as int)
                + prefix_before(c@.skip(k as int), stop),
        decreases c@.len() - k,
    {
        assert(c@.skip(k as int).drop_first() =~= c@.skip(k + 1));
        if at_host_end {
            assert(!(host_end())(c@[k as int]));
        } else {
            assert(!(colon())(c@[k as int]));
        }
        assert(c@.skip(k as int)[0] == c@[k as int]);
        assert(prefix_before(c@.skip(k as int), stop) == seq![c@[k as int]] + prefix_before(
            c@.skip(k + 1),
            stop,
        ));
        assert(c@.subrange(from as int, k + 1) =~= c@.subrange(from as int, k as int) + seq![
            c@[k as int],
        ]);
        k += 1;
    }
    if k < c.len() {
        if at_host_end {
            assert((host_end())(c@[k as int]));
        } else {
            assert((colon())(c@[k as int]));
        }
        assert(c@.skip(k as int)[0] == c@[k as int]);
    }
    assert(prefix_before(c@.skip(k as int), stop) == Seq::<char>::empty());
    assert(c@.subrange(from as int, k as int) + seq![] =~= c@.subrange(from as int, k as int));
    k
}

/// Whether `://` stands at position `k` of `c`.
fn scheme_mark_at(c: &Vec<char>, k: usize) -> (r: bool)
    ensures
        r == (k + 3 <= c@.len() && c@.subrange(k as int, k + 3) == seq![':', '/', '/']),
        r ==> k + 3 <= c.len(),
{
    if k < c.len() && c.len() - k >= 3 {
        let ghost m = c@.subrange(k as int, k + 3);
        assert(m[0] == c@[k as int] && m[1] == c@[k + 1] && m[2] == c@[k + 2]);
        if c[k] == ':' && c[k + 1] == '/' && c[k + 2] == '/' {
            assert(m =~= seq![':', '/', '/']);
            true
        } else {
            false
        }
    } else {
        false
    }
}

/// Whether the host that `target` names is the local machine.
pub fn targets_loopback(target: &str) -> (r: bool)
    ensures
        r == is_loopback(host_of(target@)),
{
    let c = chars_of(target);
    assert(c@.skip(0) =~= c@);
    let k = scan_until(&c, 0, false);
    let from = if scheme_mark_at(&c, k) {
        k + 3
    } else {
        0
    };
    let e = scan_until(&c, from, true);
    let host = target.substring_char(from, e);
    same_text(host, "localhost") || same_text(host, "127.0.0.1")
}

/// The flag pairs keep one pair per value: `2 * n` tokens, the flag at every
/// even position and the `k`-th value right after it.
pub proof fn lemma_flag_pairs(flag: Seq<char>, vals: Seq<Seq<char>>)
    ensures
        flag_pairs(flag, vals).len() == 2 * vals.len(),
        forall|k: int|
            0 <= k < vals.len() ==> (#[trigger] flag_pairs(flag, vals)[2 * k]) == flag
                && flag_pairs(flag, vals)[2 * k + 1] == vals[k],
    decreases vals.len(),
{
    if vals.len() > 0 {
        lemma_flag_pairs(flag, vals.drop_last());
        assert forall|k: int| 0 <= k < vals.len() implies (#[trigger] flag_pairs(flag, vals)[2
            * k]) == flag && flag_pairs(flag, vals)[2 * k + 1] == vals[k] by {
            let prev = flag_pairs(flag, vals.drop_last());
            assert(flag_pairs(flag, vals) == prev + seq![flag, vals.last()]);
            if k < vals.len() - 1 {
                assert(vals.drop_last()[k] == vals[k]);
                assert(0 <= k < vals.drop_last().len());
                assert(flag_pairs(flag, vals.drop_last())[2 * k] == flag);
                assert(prev[2 * k + 1] == vals.drop_last()[k]);
            }
        }
    }
}

/// The tokens before the header or metadata pairs.
pub open spec fn lead_of(r: RequestSpec) -> Seq<Seq<char>> {
    match r {
        RequestSpec::Http(h) => http_lead(h),
        RequestSpec::Grpc(g) => grpc_lead(g),
    }
}

/// The tokens after the header or metadata pairs.
pub open spec fn tail_of(r: RequestSpec) -> Seq<Seq<char>> {
    match r {
        RequestSpec::Http(h) => http_tail(h),
        RequestSpec::Grpc(g) => grpc_tail(g),
    }
}

/// The segments of a request's header or metadata block.
pub open spec fn segments_of(r: RequestSpec) -> Seq<Seq<char>> {
    match r {
        RequestSpec::Http(h) => block_segments(h.headers),
        RequestSpec::Grpc(g) => block_segments(g.metadata),
    }
}

/// Each segment of a block is non-empty and holds no newline or semicolon.
pub proof fn lemma_segments_whole(b: Option<String>)
    ensures
        forall|k: int|
            0 <= k < block_segments(b).len() ==> (#[trigger] block_segments(b)[k]).len() > 0
                && unbroken(block_segments(b)[k]),
{
    lemma_fields_nonempty(block_text(b));
    lemma_fields_unbroken(block_text(b));
}

/// A header or metadata block of `N` non-empty segments becomes exactly `N`
/// pairs of tokens, the flag and then the segment, between tokens that the
/// block does not touch: the argument count grows by two per segment, and
/// each segment is a token of its own that holds no separator.
pub proof fn lemma_one_pair_per_segment(r: RequestSpec)
    ensures
        args_of(r) == lead_of(r) + flag_pairs(header_flag(), segments_of(r)) + tail_of(r),
        args_of(r).len() == lead_of(r).len() + 2 * segments_of(r).len() + tail_of(r).len(),
        forall|k: int|
            0 <= k < segments_of(r).len() ==> (#[trigger] segments_of(r)[k]).len() > 0 && unbroken(
                segments_of(r)[k],
            ) && args_of(r)[lead_of(r).len() + 2 * k] == header_flag() && args_of(r)[lead_of(r).len() + 2 * k
                + 1] == segments_of(r)[k],
{
    let segs = segments_of(r);
    lemma_flag_pairs(header_flag(), segs);
    match r {
        RequestSpec::Http(h) => lemma_segments_whole(h.headers),
        RequestSpec::Grpc(g) => lemma_segments_whole(g.metadata),
    }
    let pairs = flag_pairs(header_flag(), segs);
    assert forall|k: int| 0 <= k < segs.len() implies (#[trigger] segs[k]).len() > 0 && unbroken(
        segs[k],
    ) && args_of(r)[lead_of(r).len() + 2 * k] == header_flag() && args_of(r)[lead_of(r).len() + 2 * k + 1]
        == segs[k] by {
        assert(pairs[2 * k] == header_flag());
    }
}

/// The arguments begin with the insecure-transport flag exactly when the
/// target's host is `localhost` or `127.0.0.1`.
pub proof fn lemma_insecure_iff_loopback(r: RequestSpec)
    requires
        spec_valid(r),
    ensures
        args_of(r).len() > 0,
        (args_of(r)[0] == insecure_flag_of(r)) <==> is_loopback(host_of(target_of(r))),
{
    reveal_strlit("--insecure");
    reveal_strlit("-plaintext");
    reveal_strlit("-X");
    reveal_strlit("-proto");
    reveal_strlit("-H");
    reveal_strlit("-d");
    match r {
        RequestSpec::Http(h) => {
            if !is_loopback(host_of(h.url@)) {
                assert(http_args(h)[0] == "-X"@);
                assert("-X"@[1] != "--insecure"@[1]);
            }
        },
        RequestSpec::Grpc(g) => {
            let segs = block_segments(g.metadata);
            lemma_flag_pairs(header_flag(), segs);
            if !is_loopback(host_of(g.address@)) {
                let a = grpc_args(g);
                if g.proto_file is Some {
                    assert(a[0] == "-proto"@);
                    assert("-proto"@[2] != "-plaintext"@[2]);
                } else if segs.len() > 0 {
                    let z: int = 0;
                    assert(flag_pairs(header_flag(), segs)[2 * z] == header_flag());
                    assert(a[0] == "-H"@);
                    assert("-H"@[1] != "-plaintext"@[1]);
                } else if g.payload is Some {
                    assert(a[0] == "-d"@);
                    assert("-d"@[1] != "-plaintext"@[1]);
                } else {
                    assert(a[0] == g.address@);
                    assert(g.address@[0] != "-plaintext"@[0]);
                }
            }
        },
    }
}

/// Appends a pair of tokens.
fn push_pair(args: &mut Vec<String>, flag: &str, value: String)
    ensures
        texts(final(args)@) == texts(old(args)@) + seq![flag@, value@],
{
    args.push(String::from_str(flag));
    args.push(value);
    assert(texts(args@) =~= texts(old(args)@) + seq![flag@, value@]);
}

/// Appends `flag` and the value, if there is one.
fn push_opt_pair(args: &mut Vec<String>, flag: &str, value: &Option<String>)
    ensures
        texts(final(args)@) == texts(old(args)@) + opt_pair(flag@, *value),
{
    match value {
        Some(v) => push_pair(args, flag, v.clone()),
        None => {
            assert(texts(args@) =~= texts(old(args)@) + seq![]);
        },
    }
}

/// Appends the insecure-transport flag when `target` is on the local machine.
fn push_insecure(args: &mut Vec<String>, flag: &str, target: &str)
    ensures
        texts(final(args)@) == texts(old(args)@) + insecure_part(flag@, target@),
{
    if targets_loopback(target) {
        args.push(String::from_str(flag));
        assert(texts(args@) =~= texts(old(args)@) + seq![flag@]);
    } else {
        assert(texts(args@) =~= texts(old(args)@) + seq![]);
    }
}

/// Appends one header pair per segment of `block`.
fn push_block(args: &mut Vec<String>, block: &Option<String>)
    ensures
        texts(final(args)@) == texts(old(args)@) + flag_pairs(header_flag(), block_segments(*block)),
{
    let segments = match block {
        Some(t) => cut_text(t.as_str(), Cut::Fields),
        None => cut_text("", Cut::Fields),
    };
    proof {
        if block is None {
            assert(""@ =~= block_text(*block)) by {
                reveal_strlit("");
            }
        }
    }
    let ghost segs = texts(segments@);
    let mut j: usize = 0;
    while j < segments.len()
        invariant
            segs == texts(segments@),
            segs == block_segments(*block),
            j <= segments@.len(),
            texts(args@) == texts(old(args)@) + flag_pairs(header_flag(), segs.take(j as int)),
        decreases segments@.len() - j,
    {
        assert(segs.take(j + 1).drop_last() =~= segs.take(j as int));
        push_pair(args, "-H", segments[j].clone());
        assert(texts(args@) =~= texts(old(args)@) + flag_pairs(header_flag(), segs.take(j + 1)));
        j += 1;
    }
    assert(segs.take(j as int) =~= segs);
}

/// The command line that executes `spec`: `InvalidSpec` exactly when the
/// request breaks its invariant.
pub fn build(spec: &RequestSpec) -> (r: Result<CommandLine, EngineError>)
    ensures
        r is Err <==> !spec_valid(*spec),
        r is Err ==> r == Err::<CommandLine, EngineError>(EngineError::InvalidSpec),
        r matches Ok(c) ==> c.program@ == client_program(spec.spec_protocol()) && texts(c.args@)
            == args_of(*spec),
{
    let mut args: Vec<String> = Vec::new();
    assert(texts(args@) =~= seq![]);
    match spec {
        RequestSpec::Http(h) => {
            if !leads_positional(&h.url) {
                return Err(EngineError::InvalidSpec);
            }
            push_insecure(&mut args, "--insecure", h.url.as_str());
            push_pair(&mut args, "-X", h.method.word());
            match &h.origin {
                Some(o) => push_pair(&mut args, "-H", String::from_str("Origin: ").concat(o.as_str())),
                None => {},
            }
            assert(texts(args@) =~= http_lead(*h));
            push_block(&mut args, &h.headers);
            push_opt_pair(&mut args, "-d", &h.body);
            let ghost before = texts(args@);
            args.push(h.url.clone());
            assert(texts(args@) =~= before + seq![h.url@]);
            assert(texts(args@) =~= http_args(*h));
            Ok(CommandLine { program: String::from_str("curl"), args })
        },
        RequestSpec::Grpc(g) => {
            if !leads_positional(&g.address) || !leads_positional(&g.method) {
                return Err(EngineError::InvalidSpec);
            }
            let service = match &g.service {
                Some(s) => if s.as_str().is_empty() {
                    None
                } else if leads_positional(s) {
                    Some(s)
                } else {
                    return Err(EngineError::InvalidSpec);
                },
                None => None,
            };
            push_insecure(&mut args, "-plaintext", g.address.as_str());
            push_opt_pair(&mut args, "-proto", &g.proto_file);
            assert(texts(args@) =~= grpc_lead(*g));
            push_block(&mut args, &g.metadata);
            push_opt_pair(&mut args, "-d", &g.payload);
            let ghost before = texts(args@);
            args.push(g.address.clone());
            let target = match service {
                Some(s) => s.clone().concat("/").concat(g.method.as_str()),
                None => g.method.clone(),
            };
            assert(target@ == grpc_target(*g));
            args.push(target);
            assert(texts(args@) =~= before + seq![g.address@, grpc_target(*g)]);
            assert(texts(args@) =~= grpc_args(*g));
            Ok(CommandLine { program: String::from_str("grpcurl"), args })
        },
    }
}

/// Whether `t` may stand as a positional argument.
fn leads_positional(t: &String) -> (r: bool)
    ensures
        r == positional(t@),
{
    let s = t.as_str();
    if s.is_empty() {
        false
    } else {
        s.get_char(0) != '-'
    }
}

} // verus!
