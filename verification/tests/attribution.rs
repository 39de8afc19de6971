use axum::http::{HeaderMap, HeaderValue};
use modelrouter::api::attribution::{
    is_safe_tag_key, validate_correlation_id, validate_project, validate_tags, Attribution,
    CORRELATION_HEADER, MAX_CORRELATION_LEN, MAX_PROJECT_LEN, MAX_TAGS, MAX_TAG_VALUE_LEN,
    PROJECT_HEADER, TAGS_HEADER,
};
use modelrouter::api::error::ApiError;
use modelrouter::json::Json;

fn json(text: &str) -> Json {
    Json::parse(text).unwrap()
}

fn no_headers() -> HeaderMap {
    HeaderMap::new()
}

fn headers_with(name: &'static str, value: &str) -> HeaderMap {
    let mut h = HeaderMap::new();
    h.insert(name, HeaderValue::from_str(value).unwrap());
    h
}

#[test]
fn absent_attribution_is_empty() {
    let a = Attribution::extract(&json(r#"{"model": "x"}"#), &no_headers()).unwrap();
    assert!(a.is_empty());
    assert_eq!(a.tags_json(), "{}");
}

#[test]
fn parses_body_attribution() {
    let body = json(
        r#"{
        "model": "x",
        "attribution": {
            "correlation_id": "eng-4711-run-3",
            "tags": {"engagement": "eng-4711", "phase": "research"}
        }
    }"#,
    );
    let a = Attribution::extract(&body, &no_headers()).unwrap();
    assert_eq!(a.correlation_id.as_deref(), Some("eng-4711-run-3"));
    assert_eq!(a.tags.get("engagement").unwrap(), "eng-4711");
    assert_eq!(a.tags_json(), r#"{"engagement":"eng-4711","phase":"research"}"#);
}

#[test]
fn header_fallback_fills_missing_fields() {
    let mut h = HeaderMap::new();
    h.insert(CORRELATION_HEADER, HeaderValue::from_static("job-9"));
    h.insert(TAGS_HEADER, HeaderValue::from_static(r#"{"engagement":"eng-1"}"#));
    let a = Attribution::extract(&json("{}"), &h).unwrap();
    assert_eq!(a.correlation_id.as_deref(), Some("job-9"));
    assert_eq!(a.tags.get("engagement").unwrap(), "eng-1");
}

#[test]
fn body_wins_over_header() {
    let mut h = HeaderMap::new();
    h.insert(CORRELATION_HEADER, HeaderValue::from_static("from-header"));
    let body = json(r#"{"attribution": {"correlation_id": "from-body"}}"#);
    let a = Attribution::extract(&body, &h).unwrap();
    assert_eq!(a.correlation_id.as_deref(), Some("from-body"));
}

#[test]
fn rejects_oversized_correlation_id() {
    let id = "x".repeat(MAX_CORRELATION_LEN + 1);
    let body = json(&format!(r#"{{"attribution": {{"correlation_id": "{id}"}}}}"#));
    assert!(Attribution::extract(&body, &no_headers()).is_err());
}

#[test]
fn rejects_too_many_tags() {
    let tags: Vec<String> = (0..(MAX_TAGS + 1)).map(|i| format!(r#""k{i}": "v""#)).collect();
    let body = json(&format!(r#"{{"attribution": {{"tags": {{{}}}}}}}"#, tags.join(",")));
    assert!(Attribution::extract(&body, &no_headers()).is_err());
}

#[test]
fn rejects_oversized_tag_value() {
    let value = "v".repeat(MAX_TAG_VALUE_LEN + 1);
    let body = json(&format!(r#"{{"attribution": {{"tags": {{"k": "{value}"}}}}}}"#));
    assert!(Attribution::extract(&body, &no_headers()).is_err());
}

#[test]
fn rejects_non_object_attribution() {
    assert!(Attribution::extract(&json(r#"{"attribution": "nope"}"#), &no_headers()).is_err());
    assert!(Attribution::extract(&json(r#"{"attribution": ["a"]}"#), &no_headers()).is_err());
}

#[test]
fn rejects_unknown_attribution_field() {
    let body = json(r#"{"attribution": {"correlation_id": "a", "secret": "b"}}"#);
    assert!(Attribution::extract(&body, &no_headers()).is_err());
}

#[test]
fn rejects_nested_tag_values() {
    let body = json(r#"{"attribution": {"tags": {"k": {"nested": true}}}}"#);
    assert!(Attribution::extract(&body, &no_headers()).is_err());
}

#[test]
fn coerces_scalar_tag_values() {
    let body = json(r#"{"attribution": {"tags": {"n": 42, "b": true}}}"#);
    let a = Attribution::extract(&body, &no_headers()).unwrap();
    assert_eq!(a.tags.get("n").unwrap(), "42");
    assert_eq!(a.tags.get("b").unwrap(), "true");
}

#[test]
fn rejects_tag_keys_that_would_break_a_json_path() {
    for bad in ["a\"b", "a\\b", "a b", "a$b"] {
        let key = Json::Str(bad.to_string()).to_text();
        let body = json(&format!(r#"{{"attribution": {{"tags": {{{key}: "v"}}}}}}"#));
        assert!(
            Attribution::extract(&body, &no_headers()).is_err(),
            "expected rejection of tag key {:?}",
            bad
        );
    }
    assert!(is_safe_tag_key("engagement.id-1:a_b"));
}

#[test]
fn rejects_control_characters() {
    let body = json(r#"{"attribution": {"correlation_id": "a\nb"}}"#);
    assert!(Attribution::extract(&body, &no_headers()).is_err());
}

#[test]
fn from_headers_ignores_body() {
    let mut h = HeaderMap::new();
    h.insert(CORRELATION_HEADER, HeaderValue::from_static("multipart-1"));
    let a = Attribution::from_headers(&h).unwrap();
    assert_eq!(a.correlation_id.as_deref(), Some("multipart-1"));
}

#[test]
fn header_supplies_the_project() {
    let a = Attribution::extract(&json("{}"), &headers_with(PROJECT_HEADER, "eng-4711")).unwrap();
    assert_eq!(a.project.as_deref(), Some("eng-4711"));
}

#[test]
fn attribution_body_wins_over_header() {
    let a = Attribution::extract(
        &json(r#"{"attribution": {"project": "from-body"}}"#),
        &headers_with(PROJECT_HEADER, "from-header"),
    )
    .unwrap();
    assert_eq!(a.project.as_deref(), Some("from-body"));
}

#[test]
fn falls_back_to_the_key_project_when_absent() {
    let a = Attribution::extract(&json("{}"), &HeaderMap::new()).unwrap();
    assert_eq!(a.project, None);
    assert_eq!(a.project_or(Some("key-proj".into())).as_deref(), Some("key-proj"));
}

#[test]
fn override_beats_the_key_project() {
    let a = Attribution::extract(&json("{}"), &headers_with(PROJECT_HEADER, "eng-1")).unwrap();
    assert_eq!(a.project_or(Some("key-proj".into())).as_deref(), Some("eng-1"));
}

#[test]
fn blank_header_is_ignored_overlong_is_rejected() {
    let blank = Attribution::extract(&json("{}"), &headers_with(PROJECT_HEADER, "   ")).unwrap();
    assert_eq!(blank.project, None);
    let stated = json(r#"{"attribution": {"project": "  "}}"#);
    assert!(Attribution::extract(&stated, &HeaderMap::new()).is_err());
    let long = "x".repeat(MAX_PROJECT_LEN + 1);
    assert!(Attribution::extract(&json("{}"), &headers_with(PROJECT_HEADER, &long)).is_err());
}

#[test]
fn an_unreadable_header_is_no_header() {
    let mut h = HeaderMap::new();
    h.insert(PROJECT_HEADER, HeaderValue::from_bytes(&[0xff, 0xfe]).unwrap());
    let a = Attribution::from_headers(&h).unwrap();
    assert_eq!(a.project, None);
}

#[test]
fn a_tags_header_must_be_an_object() {
    assert!(Attribution::from_headers(&headers_with(TAGS_HEADER, "not json")).is_err());
    assert!(Attribution::from_headers(&headers_with(TAGS_HEADER, "[1]")).is_err());
}

#[test]
fn an_accepted_id_is_accepted_again_unchanged() {
    let id = validate_correlation_id("  run-7 ").unwrap();
    assert_eq!(id, "run-7");
    assert_eq!(validate_correlation_id(&id).unwrap(), "run-7");
}

#[test]
fn a_project_has_no_white_space_around_it() {
    assert_eq!(validate_project(" p ").unwrap(), "p");
    assert!(validate_project("  ").is_err());
}

#[test]
fn tags_are_bounded_in_all() {
    let value = "v".repeat(MAX_TAG_VALUE_LEN);
    let tags: Vec<String> =
        (0..MAX_TAGS).map(|i| format!(r#""key{i}": "{value}""#)).collect();
    assert!(validate_tags(&json(&format!("{{{}}}", tags.join(",")))).is_err());
}

#[test]
fn a_refused_attribution_is_an_invalid_request() {
    let e = Attribution::extract(&json(r#"{"attribution": 1}"#), &no_headers()).unwrap_err();
    let message = e.0.clone();
    assert_eq!(ApiError::from(e), ApiError::InvalidRequest(message));
}

#[test]
fn a_body_that_says_everything_needs_no_headers() {
    let body = json(r#"{"attribution": {"correlation_id": "c", "tags": {"a": "b"}, "project": "p"}}"#);
    let mut h = HeaderMap::new();
    h.insert(CORRELATION_HEADER, HeaderValue::from_static("other"));
    h.insert(TAGS_HEADER, HeaderValue::from_static(r#"{"x":"y"}"#));
    h.insert(PROJECT_HEADER, HeaderValue::from_static("other"));
    let a = Attribution::extract(&body, &h).unwrap();
    let b = Attribution::extract(&body, &no_headers()).unwrap();
    assert_eq!(a, b);
}
