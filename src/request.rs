//! What a caller asks the engine to execute.

use vstd::prelude::*;

verus! {

/// The protocol of a request.
#[derive(PartialEq, Eq, Structural, Clone, Copy, Debug)]
pub enum Protocol {
    Http,
    Grpc,
}

/// The methods that an HTTP request may use.
#[derive(PartialEq, Eq, Structural, Clone, Copy, Debug)]
pub enum HttpMethod {
    Get,
    Post,
    Put,
    Patch,
    Delete,
}

/// The word that names an HTTP method on the wire.
pub open spec fn method_word(m: HttpMethod) -> Seq<char> {
    match m {
        HttpMethod::Get => "GET"@,
        HttpMethod::Post => "POST"@,
        HttpMethod::Put => "PUT"@,
        HttpMethod::Patch => "PATCH"@,
        HttpMethod::Delete => "DELETE"@,
    }
}

impl HttpMethod {
    /// The word that names this method on the wire.
    pub fn word(&self) -> (r: String)
        ensures
            r@ == method_word(*self),
    {
        match self {
            HttpMethod::Get => String::from_str("GET"),
            HttpMethod::Post => String::from_str("POST"),
            HttpMethod::Put => String::from_str("PUT"),
            HttpMethod::Patch => String::from_str("PATCH"),
            HttpMethod::Delete => String::from_str("DELETE"),
        }
    }
}

/// An HTTP call. `headers` is a block of `Name: value` lines, separated by
/// newlines or semicolons.
#[derive(Clone, Debug)]
pub struct HttpRequest {
    pub method: HttpMethod,
    pub url: String,
    pub origin: Option<String>,
    pub headers: Option<String>,
    pub body: Option<String>,
}

/// A gRPC call. `metadata` is a block in the same format as HTTP headers;
/// `proto_file` is the path of a `.proto` descriptor.
#[derive(Clone, Debug)]
pub struct GrpcRequest {
    pub address: String,
    pub service: Option<String>,
    pub method: String,
    pub metadata: Option<String>,
    pub payload: Option<String>,
    pub proto_file: Option<String>,
}

/// A caller's declaration of one call to attempt.
#[derive(Clone, Debug)]
pub enum RequestSpec {
    Http(HttpRequest),
    Grpc(GrpcRequest),
}

/// The text of an optional block; an absent block reads as empty.
pub open spec fn block_text(b: Option<String>) -> Seq<char> {
    match b {
        Some(t) => t@,
        None => seq![],
    }
}

/// A text that may stand as a positional argument: present, and not
/// readable as a flag.
pub open spec fn positional(t: Seq<char>) -> bool {
    t.len() > 0 && t[0] != '-'
}

/// A service name is given (an empty one counts as absent).
pub open spec fn has_service(g: GrpcRequest) -> bool {
    g.service is Some && g.service->0@.len() > 0
}

/// The invariant of a request: its target is present, and no free-text field
/// that ends up positional could be read as a flag.
pub open spec fn spec_valid(r: RequestSpec) -> bool {
    match r {
        RequestSpec::Http(h) => positional(h.url@),
        RequestSpec::Grpc(g) => positional(g.address@) && positional(g.method@) && (has_service(g)
            ==> positional(g.service->0@)),
    }
}

impl RequestSpec {
    pub open spec fn spec_protocol(&self) -> Protocol {
        match self {
            RequestSpec::Http(_) => Protocol::Http,
            RequestSpec::Grpc(_) => Protocol::Grpc,
        }
    }

    /// The protocol of this request.
    pub fn protocol(&self) -> (r: Protocol)
        ensures
            r == self.spec_protocol(),
    {
        match self {
            RequestSpec::Http(_) => Protocol::Http,
            RequestSpec::Grpc(_) => Protocol::Grpc,
        }
    }
}

} // verus!
