use hmac::{Hmac, Mac};
use sha2::Sha256;
use secure_scan::webhook::verify_signature;

fn sign(secret: &[u8], body: &[u8]) -> String {
    let mut mac = Hmac::<Sha256>::new_from_slice(secret).unwrap();
    mac.update(body);
    hex::encode(mac.finalize().into_bytes())
}

#[test]
fn test_verify_signature_ok() {
    let secret = b"testsecret";
    let body = b"{}";
    let sig = sign(b"testsecret", body);
    let header = format!("sha256={}", sig);
    assert!(verify_signature(secret, &header, body).is_ok());
}

#[test]
fn test_verify_signature_mismatch() {
    let secret = b"testsecret";
    let body = b"{}";
    let sig = sign(b"wrongsecret", body);
    let header = format!("sha256={}", sig);
    assert!(verify_signature(secret, &header, body).is_err());
}

#[test]
fn rejects_malformed_headers() {
    let secret = b"testsecret";
    let body = b"{}";
    let sig = sign(secret, body);
    assert!(verify_signature(secret, &format!("sha1={}", sig), body).is_err());
    assert!(verify_signature(secret, &sig, body).is_err());
    assert!(verify_signature(secret, "", body).is_err());
    assert!(verify_signature(secret, "sha256=", body).is_err());
    assert!(verify_signature(secret, "sha256=zz11", body).is_err());
    assert!(verify_signature(secret, "sha256=abc", body).is_err());
}

#[test]
fn rejects_signature_of_other_body() {
    let secret = b"testsecret";
    let sig = sign(secret, b"{\"a\":1}");
    let header = format!("sha256={}", sig);
    assert!(verify_signature(secret, &header, b"{\"a\":2}").is_err());
}

#[test]
fn accepts_uppercase_hex() {
    let secret = b"s";
    let body = b"payload";
    let header = format!("sha256={}", sign(secret, body).to_uppercase());
    assert!(verify_signature(secret, &header, body).is_ok());
}
