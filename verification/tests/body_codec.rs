use vcr_cassette::Body;
use vcr_cassette::BodyMatcher;
use vcr_cassette::Capabilities;
use vcr_cassette::CheckedRegex;
use vcr_cassette::DecodeError;
use vcr_cassette::DocValue;

fn all_caps() -> Capabilities {
    Capabilities { matching: true, json: true }
}

fn obj(entries: Vec<(&str, DocValue)>) -> DocValue {
    DocValue::Obj(entries.into_iter().map(|(k, v)| (k.to_string(), v)).collect())
}

fn text(s: &str) -> DocValue {
    DocValue::Text(s.to_string())
}

#[test]
fn scalar_decodes_to_plain_text() {
    let b = Body::decode(text("hi"), all_caps()).unwrap();
    assert!(matches!(b, Body::PlainText(s) if s == "hi"));
}

#[test]
fn encoded_text_decodes_in_either_key_order() {
    let d1 = obj(vec![("string", text("hi")), ("encoding", text("base64"))]);
    let d2 = obj(vec![("encoding", text("base64")), ("string", text("hi"))]);
    for d in [d1, d2] {
        match Body::decode(d, all_caps()).unwrap() {
            Body::EncodedText { encoding, string } => {
                assert_eq!(encoding.as_deref(), Some("base64"));
                assert_eq!(string, "hi");
            }
            _ => panic!("expected an encoded text body"),
        }
    }
}

#[test]
fn lone_string_key_is_missing_encoding() {
    let d = obj(vec![("string", text("hi"))]);
    match Body::decode(d, all_caps()) {
        Err(DecodeError::MissingField { accepted }) => {
            assert_eq!(accepted, vec!["encoding".to_string()]);
        }
        _ => panic!("expected a missing-field error"),
    }
}

#[test]
fn lone_encoding_key_is_missing_string() {
    let d = obj(vec![("encoding", text("base64"))]);
    match Body::decode(d, all_caps()) {
        Err(DecodeError::MissingField { accepted }) => {
            assert_eq!(accepted, vec!["string".to_string()]);
        }
        _ => panic!("expected a missing-field error"),
    }
}

#[test]
fn matcher_list_decodes_when_enabled() {
    let d = obj(vec![("matches", DocValue::Arr(vec![obj(vec![("substring", text("foo"))])]))]);
    match Body::decode(d, all_caps()).unwrap() {
        Body::Matchers(ms) => {
            assert_eq!(ms.len(), 1);
            assert!(matches!(&ms[0], BodyMatcher::Substring(s) if s == "foo"));
        }
        _ => panic!("expected a matcher-list body"),
    }
}

#[test]
fn unknown_first_key_is_unrecognized() {
    let d = obj(vec![("unknown", DocValue::Int(1))]);
    match Body::decode(d, all_caps()) {
        Err(DecodeError::UnrecognizedField { field, accepted }) => {
            assert_eq!(field, "unknown");
            assert_eq!(
                accepted,
                vec![
                    "encoding".to_string(),
                    "string".to_string(),
                    "matches".to_string(),
                    "json".to_string()
                ]
            );
        }
        _ => panic!("expected an unrecognized-field error"),
    }
}

#[test]
fn accepted_set_follows_capabilities() {
    let caps = Capabilities { matching: true, json: false };
    let d = obj(vec![("json", text("x"))]);
    match Body::decode(d, caps) {
        Err(DecodeError::UnrecognizedField { field, accepted }) => {
            assert_eq!(field, "json");
            assert_eq!(
                accepted,
                vec!["encoding".to_string(), "string".to_string(), "matches".to_string()]
            );
        }
        _ => panic!("expected an unrecognized-field error"),
    }
}

#[test]
fn empty_map_is_missing_field() {
    let d = obj(vec![]);
    match Body::decode(d, Capabilities { matching: false, json: false }) {
        Err(DecodeError::MissingField { accepted }) => {
            assert_eq!(accepted, vec!["encoding".to_string(), "string".to_string()]);
        }
        _ => panic!("expected a missing-field error"),
    }
}

#[test]
fn extra_key_after_encoded_text_is_rejected() {
    let d = obj(vec![
        ("string", text("a")),
        ("encoding", DocValue::Null),
        ("zzz", DocValue::Int(1)),
    ]);
    match Body::decode(d, all_caps()) {
        Err(DecodeError::UnrecognizedField { field, accepted }) => {
            assert_eq!(field, "zzz");
            assert!(accepted.is_empty());
        }
        _ => panic!("expected an unrecognized-field error"),
    }
}

#[test]
fn non_text_non_map_node_is_shape_error() {
    for d in [DocValue::Null, DocValue::Bool(true), DocValue::Int(3), DocValue::Arr(vec![])] {
        assert!(matches!(Body::decode(d, all_caps()), Err(DecodeError::Shape)));
    }
}

#[test]
fn round_trip_plain_text() {
    let b = Body::PlainText("ohai".to_string());
    let back = Body::decode(b.encode(), all_caps()).unwrap();
    assert!(matches!(back, Body::PlainText(s) if s == "ohai"));
}

#[test]
fn round_trip_encoded_text_with_and_without_encoding() {
    let with = Body::EncodedText { encoding: Some("base64".to_string()), string: "aGk=".to_string() };
    match Body::decode(with.encode(), all_caps()).unwrap() {
        Body::EncodedText { encoding, string } => {
            assert_eq!(encoding.as_deref(), Some("base64"));
            assert_eq!(string, "aGk=");
        }
        _ => panic!("expected an encoded text body"),
    }
    let without = Body::EncodedText { encoding: None, string: "raw".to_string() };
    match Body::decode(without.encode(), all_caps()).unwrap() {
        Body::EncodedText { encoding, string } => {
            assert_eq!(encoding, None);
            assert_eq!(string, "raw");
        }
        _ => panic!("expected an encoded text body"),
    }
}

#[test]
fn round_trip_matchers() {
    let b = Body::Matchers(vec![
        BodyMatcher::Substring("needle".to_string()),
        BodyMatcher::Regex(CheckedRegex::new("^h.*o$").unwrap()),
    ]);
    match Body::decode(b.encode(), all_caps()).unwrap() {
        Body::Matchers(ms) => {
            assert_eq!(ms.len(), 2);
            assert!(matches!(&ms[0], BodyMatcher::Substring(s) if s == "needle"));
            assert!(matches!(&ms[1], BodyMatcher::Regex(r) if r.as_str() == "^h.*o$"));
        }
        _ => panic!("expected a matcher-list body"),
    }
}

#[test]
fn round_trip_json_body() {
    let payload = obj(vec![
        ("a", DocValue::Arr(vec![DocValue::Int(1), DocValue::Bool(true), DocValue::Null])),
        ("b", text("x")),
    ]);
    let b = Body::Json(payload);
    match Body::decode(b.encode(), all_caps()).unwrap() {
        Body::Json(v) => assert_eq!(v.render(), "{\"a\":[1,true,null],\"b\":\"x\"}"),
        _ => panic!("expected a structured body"),
    }
}

#[test]
fn pattern_construction_fails_on_invalid_pattern() {
    match CheckedRegex::new("[unclosed") {
        Err(DecodeError::PatternSyntax { pattern }) => assert_eq!(pattern, "[unclosed"),
        _ => panic!("expected a pattern-syntax error"),
    }
    let _always_fine = BodyMatcher::Substring("anything".to_string());
}

#[test]
fn invalid_pattern_fails_matcher_decode() {
    let d = obj(vec![("matches", DocValue::Arr(vec![obj(vec![("regex", text("[unclosed"))])]))]);
    match Body::decode(d, all_caps()) {
        Err(DecodeError::PatternSyntax { pattern }) => assert_eq!(pattern, "[unclosed"),
        _ => panic!("expected a pattern-syntax error"),
    }
}

#[test]
fn unknown_matcher_tag_is_unrecognized() {
    let d = obj(vec![("matches", DocValue::Arr(vec![obj(vec![("glob", text("*"))])]))]);
    match Body::decode(d, all_caps()) {
        Err(DecodeError::UnrecognizedField { field, accepted }) => {
            assert_eq!(field, "glob");
            assert_eq!(accepted, vec!["substring".to_string(), "regex".to_string()]);
        }
        _ => panic!("expected an unrecognized-field error"),
    }
}

#[test]
fn plain_text_equals_unencoded_text_only() {
    let plain = Body::PlainText("hi".to_string());
    let unencoded = Body::EncodedText { encoding: None, string: "hi".to_string() };
    let encoded = Body::EncodedText { encoding: Some("x".to_string()), string: "hi".to_string() };
    assert!(plain.is_equivalent_to(&unencoded));
    assert!(unencoded.is_equivalent_to(&plain));
    assert!(!plain.is_equivalent_to(&encoded));
    assert!(!encoded.is_equivalent_to(&plain));
}

#[test]
fn substring_matcher_accepts_containing_text() {
    let m = Body::Matchers(vec![BodyMatcher::Substring("ell".to_string())]);
    assert!(m.is_equivalent_to(&Body::PlainText("hello".to_string())));
    assert!(Body::PlainText("hello".to_string()).is_equivalent_to(&m));
    assert!(!m.is_equivalent_to(&Body::PlainText("halo".to_string())));
}

#[test]
fn regex_matcher_is_unanchored_find() {
    let m = Body::Matchers(vec![BodyMatcher::Regex(CheckedRegex::new("^h.*o$").unwrap())]);
    assert!(m.is_equivalent_to(&Body::PlainText("hello".to_string())));
    assert!(!m.is_equivalent_to(&Body::PlainText("goodbye".to_string())));
    let find = Body::Matchers(vec![BodyMatcher::Regex(CheckedRegex::new("l+").unwrap())]);
    assert!(find.is_equivalent_to(&Body::PlainText("hello".to_string())));
}

#[test]
fn matcher_lists_never_equal_each_other() {
    let a = Body::Matchers(vec![BodyMatcher::Substring("a".to_string())]);
    let b = Body::Matchers(vec![BodyMatcher::Substring("a".to_string())]);
    assert!(!a.is_equivalent_to(&b));
}

#[test]
fn empty_matcher_list_accepts_everything() {
    let m = Body::Matchers(vec![]);
    assert!(m.is_equivalent_to(&Body::PlainText("anything".to_string())));
}

#[test]
fn json_body_compares_through_rendering() {
    let j = Body::Json(text("hi"));
    assert!(j.is_equivalent_to(&Body::PlainText("\"hi\"".to_string())));
    assert!(Body::PlainText("\"hi\"".to_string()).is_equivalent_to(&j));
    assert!(!j.is_equivalent_to(&Body::PlainText("hi".to_string())));
    let m = Body::Matchers(vec![BodyMatcher::Substring("\"hi\"".to_string())]);
    assert!(m.is_equivalent_to(&j));
    assert!(j.is_equivalent_to(&m));
}

#[test]
fn encoded_text_never_equals_matchers_or_json() {
    let e = Body::EncodedText { encoding: None, string: "x".to_string() };
    let m = Body::Matchers(vec![BodyMatcher::Substring("x".to_string())]);
    let j = Body::Json(text("x"));
    assert!(!e.is_equivalent_to(&m));
    assert!(!e.is_equivalent_to(&j));
    assert!(!m.is_equivalent_to(&e));
    assert!(!j.is_equivalent_to(&e));
}

#[test]
fn json_bodies_never_equal_each_other() {
    let a = Body::Json(text("x"));
    let b = Body::Json(text("x"));
    assert!(!a.is_equivalent_to(&b));
}

#[test]
fn render_covers_every_shape() {
    assert_eq!(Body::PlainText("hi".to_string()).render(), "hi");
    let enc = Body::EncodedText { encoding: Some("base64".to_string()), string: "aGk=".to_string() };
    assert_eq!(enc.render(), "(base64)aGk=");
    let bare = Body::EncodedText { encoding: None, string: "raw".to_string() };
    assert_eq!(bare.render(), "raw");
    let ms = Body::Matchers(vec![
        BodyMatcher::Substring("foo".to_string()),
        BodyMatcher::Regex(CheckedRegex::new("a+").unwrap()),
    ]);
    assert_eq!(ms.render(), "[substring(foo), regex(a+)]");
    let j = Body::Json(obj(vec![("n", DocValue::Int(-42))]));
    assert_eq!(j.render(), "{\"n\":-42}");
}

#[test]
fn rendering_escapes_text_scalars() {
    let j = Body::Json(text("a\"b\\c\n"));
    assert_eq!(j.render(), "\"a\\\"b\\\\c\\n\"");
}

#[test]
fn rendering_extreme_integers() {
    assert_eq!(DocValue::Int(i64::MIN).render(), "-9223372036854775808");
    assert_eq!(DocValue::Int(0).render(), "0");
    assert_eq!(DocValue::UInt(u64::MAX).render(), "18446744073709551615");
}
