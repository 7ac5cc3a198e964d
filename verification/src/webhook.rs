//! Webhook signature verification: checks an `X-Hub-Signature-256`
//! header value of the form `sha256=<hex>` against the HMAC-SHA256
//! tag of the raw body under a shared secret.

use vstd::prelude::*;
use vstd::string::*;
use hmac::{Hmac, Mac};
use sha2::Sha256;
use hex::FromHex;
use subtle::ConstantTimeEq;
use crate::text::{seq_starts_with, str_starts_with};

verus! {

/// The HMAC-SHA256 tag of a message under a key: a function of the
/// two byte strings alone.
pub uninterp spec fn hmac_sha256_of(key: Seq<u8>, msg: Seq<u8>) -> Seq<u8>;

/// Relies on hmac with sha2 (`Hmac<Sha256>`): the 32-byte tag depends
/// on key and message alone. HMAC accepts keys of any length, so
/// construction cannot fail.
#[verifier::external_body]
fn hmac_sha256(key: &[u8], msg: &[u8]) -> (r: Vec<u8>)
    ensures
        r@ == hmac_sha256_of(key@, msg@),
        r@.len() == 32,
{
    let mut mac = <Hmac<Sha256> as Mac>::new_from_slice(key).expect("any key length is accepted");
    mac.update(msg);
    mac.finalize().into_bytes().to_vec()
}

/// A hexadecimal digit.
pub open spec fn is_hex_digit(c: char) -> bool {
    ('0' <= c && c <= '9') || ('a' <= c && c <= 'f') || ('A' <= c && c <= 'F')
}

/// The value of one hexadecimal digit.
pub open spec fn hex_val(c: char) -> int {
    if '0' <= c && c <= '9' {
        c as int - '0' as int
    } else if 'a' <= c && c <= 'f' {
        10 + c as int - 'a' as int
    } else {
        10 + c as int - 'A' as int
    }
}

/// The bytes encoded by a string of hexadecimal digit pairs.
pub open spec fn hex_decoded(s: Seq<char>) -> Seq<u8>
    decreases s.len(),
{
    if s.len() < 2 {
        Seq::empty()
    } else {
        seq![(hex_val(s[0]) * 16 + hex_val(s[1])) as u8] + hex_decoded(s.skip(2))
    }
}

/// An even number of hexadecimal digits.
pub open spec fn is_hex_string(s: Seq<char>) -> bool {
    s.len() % 2 == 0 && forall|i: int| 0 <= i < s.len() ==> is_hex_digit(#[trigger] s[i])
}

/// Relies on hex's `FromHex` for `Vec<u8>`: decoding succeeds exactly
/// on an even number of hexadecimal digits and yields one byte per
/// digit pair.
#[verifier::external_body]
fn decode_hex(s: &str) -> (r: Option<Vec<u8>>)
    ensures
        r is Some <==> is_hex_string(s@),
        r matches Some(v) ==> v@ == hex_decoded(s@),
{
    match Vec::from_hex(s) {
        Ok(v) => Some(v),
        Err(_) => None,
    }
}

/// Relies on subtle's constant-time slice equality: true exactly when
/// the two byte strings are equal; a length mismatch compares false.
#[verifier::external_body]
fn ct_bytes_eq(a: &[u8], b: &[u8]) -> (r: bool)
    ensures
        r == (a@ == b@),
{
    a.ct_eq(b).unwrap_u8() == 1
}

/// A signature header is accepted for a body under a secret exactly
/// when it reads `sha256=<hex>` and the hex decodes to the body's
/// HMAC-SHA256 tag under the secret.
pub open spec fn signature_accepted(secret: Seq<u8>, header: Seq<char>, body: Seq<u8>) -> bool {
    &&& seq_starts_with(header, "sha256="@)
    &&& is_hex_string(header.skip(7))
    &&& hex_decoded(header.skip(7)) == hmac_sha256_of(secret, body)
}

/// Check a webhook signature header against the raw body under the
/// shared secret. Accepts exactly the headers of the form
/// `sha256=<hex>` whose hex digits decode to the body's HMAC-SHA256
/// tag under the secret.
pub fn verify_signature(secret: &[u8], signature_header: &str, body: &[u8]) -> (r: Result<(), ()>)
    ensures
        r is Ok <==> signature_accepted(secret@, signature_header@, body@),
{
    proof {
        reveal_strlit("sha256=");
    }
    if !str_starts_with(signature_header, "sha256=") {
        return Err(());
    }
    let n = signature_header.unicode_len();
    let hexpart = signature_header.substring_char(7, n);
    proof {
        assert(hexpart@ =~= signature_header@.skip(7));
    }
    match decode_hex(hexpart) {
        None => Err(()),
        Some(sig) => {
            let tag = hmac_sha256(secret, body);
            if ct_bytes_eq(tag.as_slice(), sig.as_slice()) {
                Ok(())
            } else {
                Err(())
            }
        },
    }
}

} // verus!
