use gurl::command::{build, EngineError};
use gurl::request::{GrpcRequest, HttpMethod, HttpRequest, Protocol, RequestSpec};

fn http(method: HttpMethod, url: &str) -> HttpRequest {
    HttpRequest { method, url: url.to_string(), origin: None, headers: None, body: None }
}

fn grpc(address: &str, service: Option<&str>, method: &str) -> GrpcRequest {
    GrpcRequest {
        address: address.to_string(),
        service: service.map(|s| s.to_string()),
        method: method.to_string(),
        metadata: None,
        payload: None,
        proto_file: None,
    }
}

fn args_of(spec: &RequestSpec) -> Vec<String> {
    build(spec).expect("valid request").args
}

#[test]
fn localhost_get_is_insecure_and_ends_with_url() {
    let spec = RequestSpec::Http(http(HttpMethod::Get, "http://localhost:8080/x"));
    let line = build(&spec).unwrap();
    assert_eq!(line.program, "curl");
    assert_eq!(line.args, vec!["--insecure", "-X", "GET", "http://localhost:8080/x"]);
    assert_eq!(line.args.last().unwrap(), "http://localhost:8080/x");
}

#[test]
fn header_segments_become_one_pair_each() {
    let mut h = http(HttpMethod::Post, "https://example.com/api");
    h.headers = Some("A: 1\n B: 2 ;; C: 3;".to_string());
    h.body = Some("{}".to_string());
    let args = args_of(&RequestSpec::Http(h));
    assert_eq!(
        args,
        vec!["-X", "POST", "-H", "A: 1", "-H", "B: 2", "-H", "C: 3", "-d", "{}", "https://example.com/api"]
    );
}

#[test]
fn header_pairs_grow_two_tokens_per_segment() {
    let base = args_of(&RequestSpec::Http(http(HttpMethod::Get, "https://example.com")));
    for n in 0..5usize {
        let mut h = http(HttpMethod::Get, "https://example.com");
        let block: Vec<String> = (0..n).map(|i| format!("X-{}: {}", i, i)).collect();
        h.headers = Some(block.join(";"));
        let args = args_of(&RequestSpec::Http(h));
        assert_eq!(args.len(), base.len() + 2 * n);
        for i in 0..n {
            assert_eq!(args[2 + 2 * i], "-H");
            assert_eq!(args[3 + 2 * i], format!("X-{}: {}", i, i));
        }
    }
}

#[test]
fn blank_header_block_adds_nothing() {
    let mut h = http(HttpMethod::Get, "https://example.com");
    h.headers = Some(" ;\n ; ".to_string());
    assert_eq!(args_of(&RequestSpec::Http(h)), vec!["-X", "GET", "https://example.com"]);
}

#[test]
fn origin_becomes_a_header_pair() {
    let mut h = http(HttpMethod::Delete, "https://example.com/a");
    h.origin = Some("https://app.example.com".to_string());
    assert_eq!(
        args_of(&RequestSpec::Http(h)),
        vec!["-X", "DELETE", "-H", "Origin: https://app.example.com", "https://example.com/a"]
    );
}

#[test]
fn grpc_full_request() {
    let mut g = grpc("localhost:50051", Some("helloworld.Greeter"), "SayHello");
    g.metadata = Some("authorization: Bearer x".to_string());
    g.payload = Some("{\"name\":\"a\"}".to_string());
    let spec = RequestSpec::Grpc(g);
    assert_eq!(spec.protocol(), Protocol::Grpc);
    let line = build(&spec).unwrap();
    assert_eq!(line.program, "grpcurl");
    assert_eq!(
        line.args,
        vec![
            "-plaintext",
            "-H",
            "authorization: Bearer x",
            "-d",
            "{\"name\":\"a\"}",
            "localhost:50051",
            "helloworld.Greeter/SayHello"
        ]
    );
}

#[test]
fn grpc_proto_file_and_remote_target() {
    let mut g = grpc("api.example.com:443", None, "list");
    g.proto_file = Some("protos/api.proto".to_string());
    assert_eq!(
        args_of(&RequestSpec::Grpc(g)),
        vec!["-proto", "protos/api.proto", "api.example.com:443", "list"]
    );
}

#[test]
fn empty_service_counts_as_absent() {
    let g = grpc("127.0.0.1:9000", Some(""), "Ping");
    assert_eq!(args_of(&RequestSpec::Grpc(g)), vec!["-plaintext", "127.0.0.1:9000", "Ping"]);
}

#[test]
fn insecure_flag_only_for_loopback_targets() {
    let cases = [
        ("http://localhost", true),
        ("http://127.0.0.1:3000/a?b", true),
        ("localhost", true),
        ("https://localhost.example.com/", false),
        ("https://example.com/localhost", false),
        ("http://user@localhost/", false),
        ("http://127.0.0.2/", false),
    ];
    for (url, loopback) in cases {
        let args = args_of(&RequestSpec::Http(http(HttpMethod::Get, url)));
        assert_eq!(args[0] == "--insecure", loopback, "{}", url);
        assert_eq!(args.iter().any(|a| a == "--insecure"), loopback, "{}", url);
    }
    for (address, loopback) in [("localhost:50051", true), ("127.0.0.1:50051", true), ("10.0.0.1:50051", false)] {
        let args = args_of(&RequestSpec::Grpc(grpc(address, None, "M")));
        assert_eq!(args[0] == "-plaintext", loopback, "{}", address);
    }
}

#[test]
fn flag_like_positional_fields_are_refused() {
    let refused = [
        RequestSpec::Http(http(HttpMethod::Get, "")),
        RequestSpec::Http(http(HttpMethod::Get, "-o/etc/passwd")),
        RequestSpec::Grpc(grpc("", None, "M")),
        RequestSpec::Grpc(grpc("-plaintext", None, "M")),
        RequestSpec::Grpc(grpc("localhost:1", None, "")),
        RequestSpec::Grpc(grpc("localhost:1", None, "-d")),
        RequestSpec::Grpc(grpc("localhost:1", Some("-import-path"), "M")),
    ];
    for spec in refused.iter() {
        assert_eq!(build(spec).unwrap_err(), EngineError::InvalidSpec);
    }
}

#[test]
fn flag_like_values_stay_values() {
    let mut h = http(HttpMethod::Put, "https://example.com");
    h.headers = Some("-k".to_string());
    h.body = Some("--output=x".to_string());
    assert_eq!(
        args_of(&RequestSpec::Http(h)),
        vec!["-X", "PUT", "-H", "-k", "-d", "--output=x", "https://example.com"]
    );
}
