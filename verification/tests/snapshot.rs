use mock_request::body::{BodySource, DrainError};
use mock_request::decode::DecodeError;
use mock_request::request::{CaptureError, Request};
use mock_request::target::Target;

fn capture_ok(method: &str, target: Target, pairs: Vec<(String, Vec<u8>)>, body: Vec<u8>) -> Request {
    let mut source = BodySource::Ready(body);
    Request::capture(method.to_string(), target, pairs, &mut source).unwrap()
}

#[test]
fn absolute_form_target_is_reparsed_unchanged() {
    let target = "http://example.com/a/b?x=1";
    let snap = capture_ok("GET", Target::Absolute(target.to_string()), Vec::new(), Vec::new());
    let reparsed: String = url::Url::parse(target).unwrap().into();
    assert_eq!(snap.url, reparsed);
    assert_eq!(snap.url, "http://example.com/a/b?x=1");
}

#[test]
fn origin_form_target_resolves_against_localhost() {
    let snap = capture_ok("GET", Target::Origin("/a/b?x=1".to_string()), Vec::new(), Vec::new());
    assert_eq!(snap.url, "http://localhost/a/b?x=1");
}

#[test]
fn url_parsing_normalizes_its_input() {
    let snap = capture_ok(
        "GET",
        Target::Absolute("HTTP://EXAMPLE.com".to_string()),
        Vec::new(),
        Vec::new(),
    );
    assert_eq!(snap.url, "http://example.com/");
}

#[test]
fn method_is_copied_verbatim() {
    let snap = capture_ok("PaTcH", Target::Origin("/".to_string()), Vec::new(), Vec::new());
    assert_eq!(snap.method, "PaTcH");
}

#[test]
fn repeated_header_names_aggregate_in_arrival_order() {
    let pairs = vec![
        ("X-Foo".to_string(), b"1".to_vec()),
        ("X-Foo".to_string(), b"2".to_vec()),
    ];
    let snap = capture_ok("GET", Target::Origin("/".to_string()), pairs, Vec::new());
    let expected = vec![b"1".to_vec(), b"2".to_vec()];
    assert_eq!(snap.headers.get("x-foo"), Some(&expected));
    assert_eq!(snap.headers.get("X-Foo"), Some(&expected));
}

#[test]
fn header_lookup_is_case_insensitive() {
    let pairs = vec![("Content-Type".to_string(), b"application/json".to_vec())];
    let snap = capture_ok("POST", Target::Origin("/".to_string()), pairs, Vec::new());
    let expected = vec![b"application/json".to_vec()];
    assert_eq!(snap.headers.get("content-type"), Some(&expected));
    assert_eq!(snap.headers.get("CONTENT-TYPE"), Some(&expected));
    assert_eq!(snap.headers.get("x-missing"), None);
}

#[test]
fn body_json_round_trips_an_integer_mapping() {
    let snap = capture_ok(
        "POST",
        Target::Origin("/".to_string()),
        Vec::new(),
        b"{\"a\":1}".to_vec(),
    );
    assert_eq!(snap.body_json(), Ok(vec![("a".to_string(), 1)]));
    // The snapshot is untouched: decoding can be repeated.
    assert_eq!(snap.body_json(), Ok(vec![("a".to_string(), 1)]));
}

#[test]
fn body_json_entries_come_sorted_by_key() {
    let snap = capture_ok(
        "POST",
        Target::Origin("/".to_string()),
        Vec::new(),
        b"{\"b\":2,\"a\":1}".to_vec(),
    );
    assert_eq!(
        snap.body_json(),
        Ok(vec![("a".to_string(), 1), ("b".to_string(), 2)])
    );
}

#[test]
fn body_json_rejects_bytes_that_are_not_json() {
    let snap = capture_ok(
        "POST",
        Target::Origin("/".to_string()),
        Vec::new(),
        b"not json".to_vec(),
    );
    assert_eq!(snap.body_json(), Err(DecodeError));
}

#[test]
fn rendering_a_bare_get_is_exact() {
    let snap = capture_ok(
        "GET",
        Target::Absolute("http://localhost/".to_string()),
        Vec::new(),
        Vec::new(),
    );
    assert_eq!(snap.render(), "GET http://localhost/\n\n");
}

#[test]
fn rendering_lists_headers_in_first_arrival_order() {
    let pairs = vec![
        ("B-Key".to_string(), b"1".to_vec()),
        ("A-Key".to_string(), b"2".to_vec()),
        ("B-Key".to_string(), b"3".to_vec()),
    ];
    let snap = capture_ok("GET", Target::Origin("/".to_string()), pairs, b"hi".to_vec());
    assert_eq!(snap.render(), "GET http://localhost/\nb-key: 1,3\na-key: 2\nhi\n");
}

#[test]
fn rendering_the_same_snapshot_twice_is_stable() {
    let pairs = vec![
        ("X-One".to_string(), b"1".to_vec()),
        ("X-Two".to_string(), b"2".to_vec()),
    ];
    let snap = capture_ok("GET", Target::Origin("/".to_string()), pairs, Vec::new());
    assert_eq!(snap.render(), snap.render());
}

#[test]
fn rendering_decodes_invalid_utf8_lossily() {
    let pairs = vec![("X-Raw".to_string(), vec![0xff, 0x28])];
    let snap = capture_ok("GET", Target::Origin("/".to_string()), pairs, vec![0xff]);
    assert_eq!(
        snap.render(),
        "GET http://localhost/\nx-raw: \u{fffd}(\n\u{fffd}\n"
    );
}

#[test]
fn capture_fails_on_an_unparsable_target() {
    let mut source = BodySource::Ready(b"kept".to_vec());
    let r = Request::capture(
        "GET".to_string(),
        Target::Absolute("::not a url::".to_string()),
        Vec::new(),
        &mut source,
    );
    assert_eq!(r.err(), Some(CaptureError::Transport));
    // The body source is untouched by a transport failure.
    assert_eq!(source.drain(), Ok(b"kept".to_vec()));
}

#[test]
fn capture_reports_a_broken_body_source() {
    let mut source = BodySource::Broken("connection reset".to_string());
    let r = Request::capture(
        "GET".to_string(),
        Target::Origin("/".to_string()),
        Vec::new(),
        &mut source,
    );
    assert_eq!(
        r.err(),
        Some(CaptureError::BodyRead(DrainError::Failed(
            "connection reset".to_string()
        )))
    );
    assert_eq!(source.drain(), Err(DrainError::AlreadyConsumed));
}

#[test]
fn body_source_cannot_be_drained_twice() {
    let mut source = BodySource::Ready(b"{\"a\":1}".to_vec());
    let r = Request::capture(
        "GET".to_string(),
        Target::Origin("/".to_string()),
        Vec::new(),
        &mut source,
    );
    assert!(r.is_ok());
    assert_eq!(source.drain(), Err(DrainError::AlreadyConsumed));
}

#[test]
fn consumed_source_fails_a_capture_with_the_state_error() {
    let mut source = BodySource::Consumed;
    let r = Request::capture(
        "GET".to_string(),
        Target::Origin("/".to_string()),
        Vec::new(),
        &mut source,
    );
    assert_eq!(
        r.err(),
        Some(CaptureError::BodyRead(DrainError::AlreadyConsumed))
    );
}

#[test]
fn empty_header_values_are_kept() {
    let pairs = vec![("X-Empty".to_string(), Vec::new())];
    let snap = capture_ok("GET", Target::Origin("/".to_string()), pairs, Vec::new());
    let expected = vec![Vec::new()];
    assert_eq!(snap.headers.get("x-empty"), Some(&expected));
    assert_eq!(snap.render(), "GET http://localhost/\nx-empty: \n\n");
}

#[test]
fn non_ascii_header_names_pass_through_unchanged() {
    let pairs = vec![("X-Grüße".to_string(), b"1".to_vec())];
    let snap = capture_ok("GET", Target::Origin("/".to_string()), pairs, Vec::new());
    let expected = vec![b"1".to_vec()];
    assert_eq!(snap.headers.get("x-grüße"), Some(&expected));
    assert_eq!(snap.headers.get("X-GRüßE"), Some(&expected));
}

#[test]
fn lowercasing_touches_only_ascii_uppercase() {
    assert_eq!(mock_request::text::lower_string("MiXeD-123_ß"), "mixed-123_ß");
    assert_eq!(mock_request::text::lower_string(""), "");
}
