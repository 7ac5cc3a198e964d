use secure_scan::errors::ApiError;
use secure_scan::target::{extract_target, mock_scan_url};

fn expect_bad_request(r: Result<String, ApiError>, message: &str) {
    match r {
        Err(ApiError::BadRequest(m)) => assert_eq!(m, message),
        other => panic!("expected BadRequest, got {:?}", other),
    }
}

#[test]
fn extract_json_target_url() {
    let r = extract_target(r#"{"target_url": "https://a.example"}"#).unwrap();
    assert_eq!(r, "https://a.example");
}

#[test]
fn extract_json_camel_case_key() {
    let r = extract_target(r#"{"targetUrl": "https://b.example"}"#).unwrap();
    assert_eq!(r, "https://b.example");
}

#[test]
fn extract_json_url_key() {
    let r = extract_target(r#"{"url": "https://c.example"}"#).unwrap();
    assert_eq!(r, "https://c.example");
}

#[test]
fn extract_json_key_precedence() {
    let body = r#"{"url": "https://u.example", "target_url": "https://t.example"}"#;
    assert_eq!(extract_target(body).unwrap(), "https://t.example");
}

#[test]
fn extract_json_trims_target() {
    let r = extract_target(r#"{"target_url": "  https://a.example  "}"#).unwrap();
    assert_eq!(r, "https://a.example");
}

#[test]
fn extract_fallback_substring() {
    let r = extract_target("please scan https://x.example/path today").unwrap();
    assert_eq!(r, "https://x.example/path");
}

#[test]
fn extract_fallback_prefers_plain_http() {
    // the first search is for http://, wherever it stands
    let r = extract_target("see https://a.b and http://c.d later").unwrap();
    assert_eq!(r, "http://c.d");
}

#[test]
fn extract_fallback_cuts_at_quote_and_brace() {
    assert_eq!(extract_target(r#"xx http://a.b"tail"#).unwrap(), "http://a.b");
    assert_eq!(extract_target("yy http://a.b}tail").unwrap(), "http://a.b");
    assert_eq!(extract_target("zz http://a.b'tail").unwrap(), "http://a.b");
}

#[test]
fn extract_json_nonstring_falls_back() {
    let body = r#"{"target_url": 5, "note": "http://f.g"}"#;
    assert_eq!(extract_target(body).unwrap(), "http://f.g");
}

#[test]
fn extract_invalid_json_falls_back() {
    let body = "{not json at all https://h.i/x";
    assert_eq!(extract_target(body).unwrap(), "https://h.i/x");
}

#[test]
fn extract_no_target_rejected() {
    expect_bad_request(
        extract_target("no links here"),
        "could not parse target url from request body",
    );
}

#[test]
fn extract_empty_target_rejected() {
    expect_bad_request(extract_target(r#"{"target_url": "   "}"#), "target_url is empty");
}

#[test]
fn mock_url_from_body() {
    assert_eq!(mock_scan_url(r#"{"url": "https://m.example"}"#), "https://m.example");
}

#[test]
fn mock_url_default() {
    assert_eq!(mock_scan_url("{}"), "https://example.com");
    assert_eq!(mock_scan_url("not json"), "https://example.com");
    assert_eq!(mock_scan_url(r#"{"url": 7}"#), "https://example.com");
}
