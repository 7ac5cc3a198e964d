use secure_scan::auth::{hash_password, verify_password, AuthError};
use secure_scan::errors::{ApiError, EnqueueError, ErrorResponse};
use secure_scan::requests::{FixSuggestReq, LoginPayload, RegisterPayload, UrlReq};
use secure_scan::text::u64_to_decimal;

#[test]
fn hash_then_verify_roundtrip() {
    let hash = hash_password("s3cret-pw").unwrap();
    assert!(verify_password(&hash, "s3cret-pw").is_ok());
}

#[test]
fn verify_wrong_password_rejected() {
    let hash = hash_password("right").unwrap();
    let e = verify_password(&hash, "wrong").unwrap_err();
    assert!(matches!(e, AuthError::InvalidCredentials));
}

#[test]
fn verify_garbage_hash_rejected() {
    let e = verify_password("not-a-phc-hash", "pw").unwrap_err();
    assert!(matches!(e, AuthError::Hash));
}

#[test]
fn hashes_differ_by_salt() {
    let a = hash_password("same").unwrap();
    let b = hash_password("same").unwrap();
    assert_ne!(a, b);
    assert!(verify_password(&b, "same").is_ok());
}

#[test]
fn auth_error_boundary_mapping() {
    assert_eq!(AuthError::EmailTaken.status_code(), 409);
    assert_eq!(AuthError::EmailTaken.label(), "email_taken");
    assert_eq!(AuthError::InvalidCredentials.status_code(), 401);
    assert_eq!(AuthError::InvalidCredentials.label(), "invalid_credentials");
    assert_eq!(AuthError::Hash.status_code(), 500);
    assert_eq!(AuthError::Db("down".to_string()).label(), "internal_error");
}

#[test]
fn api_error_boundary_mapping() {
    assert_eq!(ApiError::BadRequest("b".to_string()).status_code(), 400);
    assert_eq!(ApiError::NotFound("n".to_string()).status_code(), 404);
    assert_eq!(ApiError::Internal("i".to_string()).status_code(), 500);
    assert_eq!(ApiError::NotFound("scan not found".to_string()).message(), "scan not found");
    let body = ErrorResponse { error: "scan not found".to_string() };
    assert_eq!(body.error, "scan not found");
    assert_ne!(EnqueueError::QueueFull, EnqueueError::QueueClosed);
}

#[test]
fn payloads_carry_fields() {
    let r = RegisterPayload { email: "a@b.c".to_string(), password: "pw".to_string() };
    let l = LoginPayload { email: r.email.clone(), password: r.password.clone() };
    assert_eq!(l.email, "a@b.c");
    let u = UrlReq { url: Some("https://example.com".to_string()) };
    assert_eq!(u.url.as_deref(), Some("https://example.com"));
}

#[test]
fn suggestion_counts_characters() {
    let req = FixSuggestReq { code: "abcd".to_string() };
    assert_eq!(req.suggestion(), "Suggested fix for code snippet (4 chars)");
    let empty = FixSuggestReq { code: String::new() };
    assert_eq!(empty.suggestion(), "Suggested fix for code snippet (0 chars)");
}

#[test]
fn decimal_rendering_exact() {
    assert_eq!(u64_to_decimal(0), "0");
    assert_eq!(u64_to_decimal(7), "7");
    assert_eq!(u64_to_decimal(42), "42");
    assert_eq!(u64_to_decimal(1000), "1000");
    assert_eq!(u64_to_decimal(u64::MAX), "18446744073709551615");
}
