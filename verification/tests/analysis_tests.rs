use secure_scan::analysis::analyze_response;

fn no_headers() -> Vec<(String, String)> {
    Vec::new()
}

fn missing_all() -> Vec<String> {
    vec![
        "Missing header: content-security-policy".to_string(),
        "Missing header: x-frame-options".to_string(),
        "Missing header: x-xss-protection".to_string(),
        "Missing header: strict-transport-security".to_string(),
        "Missing header: x-content-type-options".to_string(),
        "Missing header: referrer-policy".to_string(),
    ]
}

#[test]
fn one_form_status_200_all_headers_missing() {
    let body = "<html><body><form action=\"/\"></form></body></html>";
    let r = analyze_response("https://example.com".to_string(), 200, no_headers(), body);
    let mut expected = missing_all();
    expected.push("Found 1 HTML form(s).".to_string());
    assert_eq!(r.security_findings, expected);
    assert_eq!(r.url, "https://example.com");
    assert_eq!(r.status, 200);
}

#[test]
fn present_headers_not_reported() {
    let headers = vec![
        ("Content-Security-Policy".to_string(), "default-src 'self'".to_string()),
        ("X-FRAME-OPTIONS".to_string(), "DENY".to_string()),
    ];
    let r = analyze_response("https://example.com".to_string(), 200, headers, "");
    assert_eq!(
        r.security_findings,
        vec![
            "Missing header: x-xss-protection".to_string(),
            "Missing header: strict-transport-security".to_string(),
            "Missing header: x-content-type-options".to_string(),
            "Missing header: referrer-policy".to_string(),
        ]
    );
}

#[test]
fn counts_two_forms() {
    let body = "<form></form><div><form></form></div>";
    let r = analyze_response("https://example.com".to_string(), 200, no_headers(), body);
    assert_eq!(*r.security_findings.last().unwrap(), "Found 2 HTML form(s).".to_string());
}

#[test]
fn generator_meta_reported_in_order() {
    let body = "<html><head>\
        <meta name=\"Generator\" content=\"WordPress 6\">\
        <meta name=\"author\" content=\"nobody\">\
        <meta name=\"site-generator\" content=\"Hugo\">\
        <meta name=\"generator\">\
        </head></html>";
    let r = analyze_response("https://example.com".to_string(), 200, no_headers(), body);
    let tail: Vec<String> = r.security_findings[6..].to_vec();
    assert_eq!(
        tail,
        vec!["Technology info: WordPress 6".to_string(), "Technology info: Hugo".to_string()]
    );
}

#[test]
fn non_ok_status_reported() {
    let r = analyze_response("https://example.com".to_string(), 404, no_headers(), "");
    assert_eq!(*r.security_findings.last().unwrap(), "Non-OK HTTP status: 404".to_string());
    let r = analyze_response("https://example.com".to_string(), 199, no_headers(), "");
    assert_eq!(*r.security_findings.last().unwrap(), "Non-OK HTTP status: 199".to_string());
    let r = analyze_response("https://example.com".to_string(), 399, no_headers(), "");
    assert_eq!(r.security_findings.len(), 6);
    let r = analyze_response("https://example.com".to_string(), 200, no_headers(), "");
    assert_eq!(r.security_findings.len(), 6);
}

#[test]
fn insecure_scheme_reported_last() {
    let r = analyze_response("http://example.com".to_string(), 404, no_headers(), "");
    let n = r.security_findings.len();
    assert_eq!(r.security_findings[n - 1], "Target is not using HTTPS (heuristic)".to_string());
    assert_eq!(r.security_findings[n - 2], "Non-OK HTTP status: 404".to_string());
}

#[test]
fn header_names_lowercased_in_result() {
    let headers = vec![("X-Frame-Options".to_string(), "DENY".to_string())];
    let r = analyze_response("https://example.com".to_string(), 200, headers, "");
    assert_eq!(r.headers, vec![("x-frame-options".to_string(), "DENY".to_string())]);
}

#[test]
fn analysis_is_deterministic_concrete() {
    let body = "<form></form><meta name=\"generator\" content=\"X\">";
    let headers = vec![("Referrer-Policy".to_string(), "no-referrer".to_string())];
    let a = analyze_response("http://e.com".to_string(), 500, headers.clone(), body);
    let b = analyze_response("http://e.com".to_string(), 500, headers, body);
    assert_eq!(a.security_findings, b.security_findings);
    assert_eq!(a.headers, b.headers);
}
