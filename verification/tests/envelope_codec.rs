use vcr_cassette::headers_from_doc;
use vcr_cassette::headers_to_doc;
use vcr_cassette::Body;
use vcr_cassette::Capabilities;
use vcr_cassette::Cassette;
use vcr_cassette::DecodeError;
use vcr_cassette::DocValue;
use vcr_cassette::Headers;
use vcr_cassette::Method;
use vcr_cassette::Status;
use vcr_cassette::Timestamp;
use vcr_cassette::Uri;
use vcr_cassette::Version;

fn full_caps() -> Capabilities {
    Capabilities { matching: true, json: true }
}

fn map_node(entries: Vec<(&str, DocValue)>) -> DocValue {
    DocValue::Obj(entries.into_iter().map(|(k, v)| (k.to_string(), v)).collect())
}

fn text_node(s: &str) -> DocValue {
    DocValue::Text(s.to_string())
}

fn value_list(values: Vec<&str>) -> DocValue {
    DocValue::Arr(values.into_iter().map(text_node).collect())
}

#[test]
fn method_text_is_case_insensitive() {
    assert!(matches!(Method::from_text("get"), Method::Get));
    assert!(matches!(Method::from_text("GeT"), Method::Get));
    assert!(matches!(Method::from_text("OPTIONS"), Method::Options));
    match Method::from_text("FROB") {
        Method::Other(s) => assert_eq!(s, "FROB"),
        _ => panic!("expected the fallback method"),
    }
}

#[test]
fn as_str() {
    assert_eq!(Method::Get.as_str(), "GET");
    assert_eq!(Method::Connect.as_str(), "CONNECT");
    assert_eq!(Method::Delete.as_str(), "DELETE");
    assert_eq!(Method::Head.as_str(), "HEAD");
    assert_eq!(Method::Options.as_str(), "OPTIONS");
    assert_eq!(Method::Patch.as_str(), "PATCH");
    assert_eq!(Method::Post.as_str(), "POST");
    assert_eq!(Method::Put.as_str(), "PUT");
    assert_eq!(Method::Trace.as_str(), "TRACE");
    assert_eq!(Method::Other("frob".to_string()).as_str(), "frob");
}

#[test]
fn version_texts_are_exact() {
    assert_eq!(Version::from_text("0.9"), Some(Version::Http0_9));
    assert_eq!(Version::from_text("1.0"), Some(Version::Http1_0));
    assert_eq!(Version::from_text("1.1"), Some(Version::Http1_1));
    assert_eq!(Version::from_text("2"), Some(Version::Http2_0));
    assert_eq!(Version::from_text("3"), Some(Version::Http3_0));
    assert_eq!(Version::from_text("1.2"), None);
    assert_eq!(Version::from_text("1.1 "), None);
    assert_eq!(Version::Http2_0.as_str(), "2");
}

#[test]
fn status_decode_checks_code_range() {
    let good = map_node(vec![("code", DocValue::UInt(200)), ("message", text_node("OK"))]);
    let s = Status::decode(&good).unwrap();
    assert_eq!(s.code, 200);
    assert_eq!(s.message, "OK");
    let too_big = map_node(vec![("code", DocValue::Int(70000)), ("message", text_node("x"))]);
    assert!(matches!(Status::decode(&too_big), Err(DecodeError::InvalidStatusCode)));
    let negative = map_node(vec![("code", DocValue::Int(-1)), ("message", text_node("x"))]);
    assert!(matches!(Status::decode(&negative), Err(DecodeError::InvalidStatusCode)));
    let wrong_type = map_node(vec![("code", text_node("200")), ("message", text_node("x"))]);
    assert!(matches!(Status::decode(&wrong_type), Err(DecodeError::Shape)));
    let missing = map_node(vec![("message", text_node("x"))]);
    match Status::decode(&missing) {
        Err(DecodeError::MissingField { accepted }) => {
            assert_eq!(accepted, vec!["code".to_string()]);
        }
        _ => panic!("expected a missing-field error"),
    }
}

#[test]
fn uri_parse_checks_validity() {
    let u = Uri::parse("http://localhost:7777/foo").unwrap();
    assert_eq!(u.as_str(), "http://localhost:7777/foo");
    match Uri::parse("not a uri") {
        Err(DecodeError::InvalidUri { text }) => assert_eq!(text, "not a uri"),
        _ => panic!("expected an invalid-uri error"),
    }
}

#[test]
fn uri_parse_normalizes() {
    let u = Uri::parse("HTTP://LOCALHOST:7777").unwrap();
    assert_eq!(u.as_str(), "http://localhost:7777/");
}

#[test]
fn timestamp_parse_normalizes_to_numeric_offset() {
    let t = Timestamp::parse("Tue, 01 Nov 2011 04:58:44 GMT").unwrap();
    assert!(t.as_str().contains("+0000"));
    assert!(t.as_str().contains("Nov 2011"));
}

#[test]
fn timestamp_parse_checks_mail_date_format() {
    let t = Timestamp::parse("Tue, 01 Nov 2011 04:58:44 GMT").unwrap();
    assert!(!t.as_str().is_empty());
    match Timestamp::parse("yesterday") {
        Err(DecodeError::InvalidTimestamp { text }) => assert_eq!(text, "yesterday"),
        _ => panic!("expected an invalid-timestamp error"),
    }
}

#[test]
fn timestamp_with_unrepresentable_year_is_rejected() {
    let five_digit_year = "Sat, 01 Jan 99999 00:00:00 GMT";
    assert!(matches!(
        Timestamp::parse(five_digit_year),
        Err(DecodeError::InvalidTimestamp { .. })
    ));
}

#[test]
fn headers_round_trip_preserves_value_order() {
    let headers: Headers = vec![
        ("Set-Cookie".to_string(), vec!["a=1".to_string(), "b=2".to_string(), "c=3".to_string()]),
        ("Accept".to_string(), vec!["text/html".to_string()]),
    ];
    let doc = headers_to_doc(&headers);
    match &doc {
        DocValue::Obj(entries) => {
            assert_eq!(entries.len(), 2);
            assert_eq!(entries[0].0, "Set-Cookie");
            match &entries[0].1 {
                DocValue::Arr(items) => {
                    let got: Vec<String> = items
                        .iter()
                        .map(|v| match v {
                            DocValue::Text(s) => s.clone(),
                            _ => panic!("expected a text scalar"),
                        })
                        .collect();
                    assert_eq!(got, vec!["a=1", "b=2", "c=3"]);
                }
                _ => panic!("expected a sequence of values"),
            }
        }
        _ => panic!("expected a map node"),
    }
    let back = headers_from_doc(&doc).unwrap();
    assert_eq!(back, headers);
}

#[test]
fn duplicate_header_name_is_rejected() {
    let doc = map_node(vec![
        ("Accept", value_list(vec!["a"])),
        ("Date", value_list(vec!["b"])),
        ("Accept", value_list(vec!["c"])),
    ]);
    assert!(matches!(headers_from_doc(&doc), Err(DecodeError::DuplicateField)));
}

#[test]
fn header_values_must_be_text_sequences() {
    let not_a_list = map_node(vec![("Accept", text_node("a"))]);
    assert!(matches!(headers_from_doc(&not_a_list), Err(DecodeError::Shape)));
    let bad_item = map_node(vec![("Accept", DocValue::Arr(vec![DocValue::Int(1)]))]);
    assert!(matches!(headers_from_doc(&bad_item), Err(DecodeError::Shape)));
}

fn example_cassette_doc() -> DocValue {
    let request = map_node(vec![
        ("uri", text_node("http://localhost:7777/foo")),
        ("body", text_node("")),
        ("method", text_node("get")),
        ("headers", map_node(vec![("Accept-Encoding", value_list(vec!["identity"]))])),
    ]);
    let response = map_node(vec![
        ("body", text_node("Hello foo")),
        ("http_version", text_node("1.1")),
        ("status", map_node(vec![("code", DocValue::UInt(200)), ("message", text_node("OK"))])),
        (
            "headers",
            map_node(vec![
                ("Date", value_list(vec!["Thu, 27 Oct 2011 06:16:31 GMT"])),
                ("Content-Type", value_list(vec!["text/html;charset=utf-8"])),
                ("Content-Length", value_list(vec!["9"])),
            ]),
        ),
    ]);
    let interaction = map_node(vec![
        ("request", request),
        ("response", response),
        ("recorded_at", text_node("Tue, 01 Nov 2011 04:58:44 GMT")),
    ]);
    map_node(vec![
        ("http_interactions", DocValue::Arr(vec![interaction])),
        ("recorded_with", text_node("VCR 2.0.0")),
    ])
}

#[test]
fn example_document_decodes_and_re_encodes() {
    let cassette = Cassette::decode(&example_cassette_doc(), full_caps()).unwrap();
    assert_eq!(cassette.recorded_with, "VCR 2.0.0");
    assert_eq!(cassette.http_interactions.len(), 1);
    let one = &cassette.http_interactions[0];
    assert!(matches!(&one.request.body, Body::PlainText(s) if s.is_empty()));
    assert!(matches!(one.request.method, Method::Get));
    assert_eq!(one.request.uri.as_str(), "http://localhost:7777/foo");
    assert!(matches!(&one.response.body, Body::PlainText(s) if s == "Hello foo"));
    assert_eq!(one.response.http_version, Some(Version::Http1_1));
    assert_eq!(one.response.status.code, 200);
    assert_eq!(one.response.status.message, "OK");

    let re_encoded = cassette.encode();
    let again = Cassette::decode(&re_encoded, full_caps()).unwrap();
    assert_eq!(again.http_interactions.len(), 1);
    let two = &again.http_interactions[0];
    assert!(matches!(&two.request.body, Body::PlainText(s) if s.is_empty()));
    assert!(matches!(two.request.method, Method::Get));
    assert!(matches!(&two.response.body, Body::PlainText(s) if s == "Hello foo"));
    assert_eq!(two.response.status.code, 200);
    assert_eq!(two.request.headers, vec![(
        "Accept-Encoding".to_string(),
        vec!["identity".to_string()],
    )]);
}

#[test]
fn missing_interaction_field_is_reported() {
    let doc = map_node(vec![("recorded_with", text_node("VCR 2.0.0"))]);
    match Cassette::decode(&doc, full_caps()) {
        Err(DecodeError::MissingField { accepted }) => {
            assert_eq!(accepted, vec!["http_interactions".to_string()]);
        }
        _ => panic!("expected a missing-field error"),
    }
}

#[test]
fn invalid_version_text_is_reported() {
    let response = map_node(vec![
        ("body", text_node("x")),
        ("http_version", text_node("4")),
        ("status", map_node(vec![("code", DocValue::UInt(200)), ("message", text_node("OK"))])),
        ("headers", map_node(vec![])),
    ]);
    let request = map_node(vec![
        ("uri", text_node("http://localhost/")),
        ("body", text_node("")),
        ("method", text_node("get")),
        ("headers", map_node(vec![])),
    ]);
    let interaction = map_node(vec![
        ("request", request),
        ("response", response),
        ("recorded_at", text_node("Tue, 01 Nov 2011 04:58:44 GMT")),
    ]);
    let doc = map_node(vec![
        ("http_interactions", DocValue::Arr(vec![interaction])),
        ("recorded_with", text_node("x")),
    ]);
    match Cassette::decode(&doc, full_caps()) {
        Err(DecodeError::InvalidVersion { text }) => assert_eq!(text, "4"),
        _ => panic!("expected an invalid-version error"),
    }
}

#[test]
fn absent_and_null_version_are_none() {
    for version_entry in [None, Some(DocValue::Null)] {
        let mut response_entries = vec![("body", text_node("x"))];
        if let Some(v) = version_entry {
            response_entries.push(("http_version", v));
        }
        response_entries.push((
            "status",
            map_node(vec![("code", DocValue::UInt(204)), ("message", text_node("No Content"))]),
        ));
        response_entries.push(("headers", map_node(vec![])));
        let request = map_node(vec![
            ("uri", text_node("http://localhost/")),
            ("body", text_node("")),
            ("method", text_node("get")),
            ("headers", map_node(vec![])),
        ]);
        let interaction = map_node(vec![
            ("request", request),
            ("response", map_node(response_entries)),
            ("recorded_at", text_node("Tue, 01 Nov 2011 04:58:44 GMT")),
        ]);
        let doc = map_node(vec![
            ("http_interactions", DocValue::Arr(vec![interaction])),
            ("recorded_with", text_node("x")),
        ]);
        let cassette = Cassette::decode(&doc, full_caps()).unwrap();
        assert_eq!(cassette.http_interactions[0].response.http_version, None);
    }
}
