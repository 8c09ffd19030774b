use gurl::display::{get_service_name, get_status_color, humanize_date, leading_words, DateError};
use gurl::models::{
    deserialize_bool_for_db, deserialize_favorites_for_db, serialize_bool_for_db,
    serialize_favorites_for_db, Request, User,
};
use gurl::numbers::{i32_text, parse_i32, parse_u64, u64_text};
use gurl::outcome::{classify, ProcessResult};
use gurl::record::{owner_name, record};
use gurl::request::{GrpcRequest, HttpMethod, HttpRequest, RequestSpec};
use gurl::text::{contains, cut_text, join_texts, trim_text, Cut};

#[test]
fn status_colors() {
    let color = |s: Option<&str>| get_status_color(&s.map(|x| x.to_string()));
    assert_eq!(color(Some("OK")), "green");
    assert_eq!(color(Some("0")), "green");
    assert_eq!(color(Some("5")), "red");
    assert_eq!(color(Some("UNIMPLEMENTED")), "red");
    assert_eq!(color(Some("16")), "red");
    assert_eq!(color(Some("INTERNAL")), "orange");
    assert_eq!(color(Some("15")), "orange");
    assert_eq!(color(Some("ERROR")), "yellow");
    assert_eq!(color(Some("other")), "yellow");
    assert_eq!(color(None), "yellow");
}

#[test]
fn service_name_drops_flags() {
    let cmd = "-plaintext -d {} localhost:50051  helloworld.Greeter/SayHello".to_string();
    assert_eq!(get_service_name(&cmd), "{} localhost:50051 helloworld.Greeter/SayHello");
    assert_eq!(get_service_name(&"  -v\t-x ".to_string()), "");
}

#[test]
fn favorites_round_trip() {
    assert_eq!(serialize_favorites_for_db(&Some(vec![1, -2, 30])), "1,-2,30");
    assert_eq!(serialize_favorites_for_db(&Some(vec![])), "");
    assert_eq!(serialize_favorites_for_db(&None), "");
    assert_eq!(deserialize_favorites_for_db(Some("1,-2,30".to_string())), Some(vec![1, -2, 30]));
    assert_eq!(deserialize_favorites_for_db(Some("1, x,3".to_string())), Some(vec![1, 3]));
    assert_eq!(
        deserialize_favorites_for_db(Some(" 7 ,+8,-2147483648,2147483648".to_string())),
        Some(vec![7, 8, -2147483648])
    );
    assert_eq!(deserialize_favorites_for_db(Some("".to_string())), None);
    assert_eq!(deserialize_favorites_for_db(None), None);
    assert_eq!(deserialize_favorites_for_db(Some(",".to_string())), Some(vec![]));
}

#[test]
fn bools_for_db() {
    assert_eq!(serialize_bool_for_db(true), 1);
    assert_eq!(serialize_bool_for_db(false), 0);
    assert!(deserialize_bool_for_db(1));
    assert!(!deserialize_bool_for_db(0));
    assert!(!deserialize_bool_for_db(7));
}

#[test]
fn decimal_text_both_ways() {
    assert_eq!(u64_text(0), "0");
    assert_eq!(u64_text(u64::MAX), "18446744073709551615");
    assert_eq!(i32_text(i32::MIN), "-2147483648");
    assert_eq!(i32_text(42), "42");
    assert_eq!(parse_u64("18446744073709551615"), Some(u64::MAX));
    assert_eq!(parse_u64("18446744073709551616"), None);
    assert_eq!(parse_u64("+12"), Some(12));
    assert_eq!(parse_u64("-1"), None);
    assert_eq!(parse_u64(""), None);
    assert_eq!(parse_u64("+"), None);
    assert_eq!(parse_u64("1 "), None);
    assert_eq!(parse_i32("-2147483648"), Some(i32::MIN));
    assert_eq!(parse_i32("2147483647"), Some(i32::MAX));
    assert_eq!(parse_i32("2147483648"), None);
    assert_eq!(parse_i32("-"), None);
    assert_eq!(parse_i32("0012"), Some(12));
}

#[test]
fn humanized_ages() {
    assert_eq!(humanize_date(None, 5).unwrap(), "0s");
    assert_eq!(humanize_date(Some("1000".to_string()), 3_723_000).unwrap(), "1h 2m 2s");
    assert_eq!(humanize_date(Some("0".to_string()), 90_061_001).unwrap(), "1day 1h 1m");
    assert_eq!(humanize_date(Some("0".to_string()), 1_500).unwrap(), "1s 500ms");
    assert_eq!(humanize_date(Some("abc".to_string()), 5), Err(DateError::NotANumber));
    assert_eq!(humanize_date(Some("10".to_string()), 5), Err(DateError::InFuture));
}

#[test]
fn text_helpers() {
    assert_eq!(leading_words("1h 2m 3s 4ms", 3), "1h 2m 3s");
    assert_eq!(leading_words("  a  ", 3), "a");
    assert!(contains("abc connection refused", "connection refused"));
    assert!(!contains("connection refuse", "connection refused"));
    assert!(contains("x", ""));
    assert_eq!(trim_text(" \t a b \u{3000}"), "a b");
    assert_eq!(cut_text("a,,b", Cut::Commas), vec!["a", "", "b"]);
    assert_eq!(cut_text(" a  b ", Cut::Words), vec!["a", "b"]);
    assert_eq!(join_texts(&vec!["x".to_string(), "y".to_string()], '/'), "x/y");
}

#[test]
fn records_stamp_owner_and_time() {
    let spec = RequestSpec::Http(HttpRequest {
        method: HttpMethod::Get,
        url: "http://localhost:8080/x".to_string(),
        origin: None,
        headers: None,
        body: None,
    });
    let outcome = classify(&ProcessResult { stdout: String::new(), stderr: String::new(), exit_code: 0 });
    let owner = owner_name(None);
    assert_eq!(owner, "anon");
    let mut rec = record(owner, spec, outcome, 1_700_000_000_000);
    assert!(!rec.hidden);
    let row: Request = rec.to_row();
    assert_eq!(row.id, None);
    assert_eq!(row.user_email.as_deref(), Some("anon"));
    assert_eq!(row.command, "curl --insecure -X GET http://localhost:8080/x");
    assert_eq!(row.status.as_deref(), Some("OK"));
    assert_eq!(row.method.as_deref(), Some("GET"));
    assert_eq!(row.date, "1700000000000");
    assert!(!row.hidden);
    rec.mark_hidden();
    assert!(rec.hidden);
    assert_eq!(rec.timestamp_ms, 1_700_000_000_000);
    assert!(rec.to_row().hidden);
}

#[test]
fn grpc_record_row() {
    let spec = RequestSpec::Grpc(GrpcRequest {
        address: "api.example.com:443".to_string(),
        service: Some("pkg.Svc".to_string()),
        method: "Get".to_string(),
        metadata: None,
        payload: Some("{}".to_string()),
        proto_file: None,
    });
    let outcome = classify(&ProcessResult { stdout: "{}".to_string(), stderr: String::new(), exit_code: 0 });
    let rec = record(owner_name(Some("a@b.c".to_string())), spec, outcome, 7);
    let row = rec.to_row();
    assert_eq!(row.command, "grpcurl -d {} api.example.com:443 pkg.Svc/Get");
    assert_eq!(row.method.as_deref(), Some("Get"));
    assert_eq!(row.user_email.as_deref(), Some("a@b.c"));
    assert_eq!(row.date, "7");
    let user = User {
        username: "a".to_string(),
        email: "a@b.c".to_string(),
        password: "x".to_string(),
        favorites: deserialize_favorites_for_db(Some("3,4".to_string())),
        date: Some(row.date.clone()),
        deleted: false,
    };
    assert_eq!(serialize_favorites_for_db(&user.favorites), "3,4");
}
