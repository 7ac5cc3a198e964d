//! Typed request payloads of the service boundary: the single schema
//! each endpoint accepts, in place of free-form payloads.

use vstd::prelude::*;
use vstd::string::*;
use crate::text::{dec_digits, u64_to_decimal};

verus! {

/// Body of a registration request.
pub struct RegisterPayload {
    pub email: String,
    pub password: String,
}

/// Body of a login request.
pub struct LoginPayload {
    pub email: String,
    pub password: String,
}

/// Body of a scan request in its typed form.
pub struct UrlReq {
    pub url: Option<String>,
}

/// Body of a fix-suggestion request.
pub struct FixSuggestReq {
    pub code: String,
}

impl FixSuggestReq {
    /// The echoed suggestion: a fixed sentence naming the snippet's
    /// length in characters.
    pub fn suggestion(&self) -> (r: String)
        ensures
            r@ == "Suggested fix for code snippet ("@ + dec_digits(self.code@.len() as int)
                + " chars)"@,
    {
        let len = self.code.as_str().unicode_len();
        let dec = u64_to_decimal(len as u64);
        String::from_str("Suggested fix for code snippet (").concat(dec.as_str()).concat(" chars)")
    }
}

} // verus!
