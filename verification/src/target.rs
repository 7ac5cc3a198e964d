//! Target acquisition at the request boundary: reading a target URL out
//! of a raw request body, and validating a normalized target as a
//! syntactically well-formed absolute URL.

use vstd::prelude::*;
use vstd::string::*;
use crate::errors::ApiError;
use crate::normalize::{spec_normalize, normalize_target, trim_seq, trimmed};
use crate::text::{find_seq, is_space_char, lemma_find_from_sound, str_find};

verus! {

/// Whether the `url` crate accepts the string as an absolute URL.
pub uninterp spec fn url_parse_ok(s: Seq<char>) -> bool;

/// Relies on `url::Url::parse`: syntactic validity of an absolute URL,
/// a function of the string alone.
#[verifier::external_body]
fn target_is_valid_url(s: &str) -> (r: bool)
    ensures
        r == url_parse_ok(s@),
{
    url::Url::parse(s).is_ok()
}

/// The string value at a top-level key of a JSON object body:
/// `None` when the body does not parse as JSON holding that key,
/// `Some(None)` when the key is present but not a string,
/// `Some(Some(s))` when the key holds the string `s`.
pub uninterp spec fn json_field_of(body: Seq<char>, key: Seq<char>) -> Option<Option<Seq<char>>>;

/// Relies on `serde_json::from_str`, `Value::get` and `Value::as_str`:
/// reads the string value at one top-level key of a JSON body.
#[verifier::external_body]
fn json_field_str(body: &str, key: &str) -> (r: Option<Option<String>>)
    ensures
        match r {
            Some(Some(s)) => json_field_of(body@, key@) == Some(Some(s@)),
            Some(None) => json_field_of(body@, key@) == Some(None::<Seq<char>>),
            None => json_field_of(body@, key@) is None,
        },
{
    match serde_json::from_str::<serde_json::Value>(body) {
        Ok(v) => match v.get(key) {
            Some(field) => Some(field.as_str().map(|s| s.to_string())),
            None => None,
        },
        Err(_) => None,
    }
}

/// The target named by a JSON body, trying the accepted keys in order;
/// a key that is present but not a string ends the search empty.
pub open spec fn json_target_of(t: Seq<char>) -> Option<Seq<char>> {
    match json_field_of(t, "target_url"@) {
        Some(v) => v,
        None => match json_field_of(t, "targetUrl"@) {
            Some(v) => v,
            None => match json_field_of(t, "url"@) {
                Some(v) => v,
                None => None,
            },
        },
    }
}

/// Characters that end a URL candidate found inside a free-form body.
pub open spec fn is_break_char(c: char) -> bool {
    is_space_char(c) || c == '"' || c == '\'' || c == '}'
}

fn char_is_break(c: char) -> (r: bool)
    ensures
        r == is_break_char(c),
{
    crate::text::char_is_space(c) || c == '"' || c == '\'' || c == '}'
}

/// Length of the longest prefix free of break characters.
pub open spec fn unbroken_len(s: Seq<char>) -> int
    decreases s.len(),
{
    if s.len() == 0 || is_break_char(s[0]) {
        0
    } else {
        1 + unbroken_len(s.drop_first())
    }
}

proof fn lemma_unbroken_len_at(s: Seq<char>, i: int)
    requires
        0 <= i <= s.len(),
        forall|k: int| 0 <= k < i ==> !is_break_char(s[k]),
        i == s.len() || is_break_char(s[i]),
    ensures
        unbroken_len(s) == i,
    decreases i,
{
    if i == 0 {
    } else {
        lemma_unbroken_len_at(s.drop_first(), i - 1);
    }
}

/// The URL substring fallback: the first `http://` occurrence if any,
/// else the first `https://` occurrence, cut at the first break
/// character after it.
pub open spec fn fallback_target_of(t: Seq<char>) -> Option<Seq<char>> {
    let found = if find_seq(t, "http://"@) is Some {
        find_seq(t, "http://"@)
    } else {
        find_seq(t, "https://"@)
    };
    match found {
        Some(i) => Some(t.skip(i).take(unbroken_len(t.skip(i)))),
        None => None,
    }
}

fn fallback_target(t: &str) -> (r: Option<String>)
    ensures
        match r {
            Some(s) => fallback_target_of(t@) == Some(s@),
            None => fallback_target_of(t@) is None,
        },
{
    let found = match str_find(t, "http://") {
        Some(i) => Some(i),
        None => str_find(t, "https://"),
    };
    proof {
        lemma_find_from_sound(t@, "http://"@, 0);
        lemma_find_from_sound(t@, "https://"@, 0);
    }
    match found {
        Some(i) => {
            let n = t.unicode_len();
            let rest = t.substring_char(i, n);
            let m = rest.unicode_len();
            let mut k: usize = 0;
            while k < m && !char_is_break(rest.get_char(k))
                invariant
                    m == rest@.len(),
                    k <= m,
                    forall|j: int| 0 <= j < k ==> !is_break_char(rest@[j]),
                decreases m - k,
            {
                k = k + 1;
            }
            proof {
                lemma_unbroken_len_at(rest@, k as int);
            }
            let cand = rest.substring_char(0, k);
            proof {
                assert(rest@.subrange(0, k as int) =~= t@.skip(i as int).take(k as int));
            }
            Some(String::from_str(cand))
        },
        None => None,
    }
}

/// What target extraction yields for a raw request body: a JSON-named
/// target when the trimmed body looks like a JSON object and names one,
/// else the first URL-shaped substring.
pub open spec fn extract_target_of(body: Seq<char>) -> Option<Seq<char>> {
    let t = trim_seq(body);
    let picked = if t.len() > 0 && t[0] == '{' {
        json_target_of(t)
    } else {
        None
    };
    if picked is Some {
        picked
    } else {
        fallback_target_of(t)
    }
}

/// Pull a target URL out of a raw request body.
///
/// The body may be a JSON object naming the target under `target_url`,
/// `targetUrl` or `url`, or any text containing a URL-shaped substring.
/// The returned target is trimmed; a body naming no target, or naming
/// an empty one, is rejected.
pub fn extract_target(body: &str) -> (r: Result<String, ApiError>)
    ensures
        match extract_target_of(body@) {
            Some(t) => if trim_seq(t).len() == 0 {
                r matches Err(ApiError::BadRequest(m)) && m@ == "target_url is empty"@
            } else {
                r matches Ok(s) && s@ == trim_seq(t)
            },
            None => r matches Err(ApiError::BadRequest(m)) && m@
                == "could not parse target url from request body"@,
        },
{
    let t = trimmed(body);
    let mut picked: Option<String> = None;
    if t.as_str().unicode_len() > 0 && t.as_str().get_char(0) == '{' {
        picked = match json_field_str(t.as_str(), "target_url") {
            Some(inner) => inner,
            None => match json_field_str(t.as_str(), "targetUrl") {
                Some(inner) => inner,
                None => match json_field_str(t.as_str(), "url") {
                    Some(inner) => inner,
                    None => None,
                },
            },
        };
    }
    let target: Option<String> = match picked {
        Some(s) => Some(s),
        None => fallback_target(t.as_str()),
    };
    match target {
        None => Err(
            ApiError::BadRequest(String::from_str("could not parse target url from request body")),
        ),
        Some(s) => {
            let st = trimmed(s.as_str());
            if st.as_str().unicode_len() == 0 {
                Err(ApiError::BadRequest(String::from_str("target_url is empty")))
            } else {
                Ok(st)
            }
        },
    }
}

/// Normalize a raw target and validate it as an absolute URL, per the
/// normalizer's contract: an input whose normalized form is not a valid
/// absolute URL is rejected with no side effects.
pub fn normalized_target(t: &str) -> (r: Result<String, ApiError>)
    ensures
        url_parse_ok(spec_normalize(t@)) ==> (r matches Ok(u) && u@ == spec_normalize(t@)),
        !url_parse_ok(spec_normalize(t@)) ==> (r matches Err(ApiError::BadRequest(m)) && m@
            == "invalid target_url"@),
{
    let u = normalize_target(t);
    if target_is_valid_url(u.as_str()) {
        Ok(u)
    } else {
        Err(ApiError::BadRequest(String::from_str("invalid target_url")))
    }
}

/// The target a mock-scan request names, with the documented default.
pub open spec fn mock_target_of(body: Seq<char>) -> Seq<char> {
    match json_field_of(body, "url"@) {
        Some(Some(s)) => s,
        _ => "https://example.com"@,
    }
}

/// Target named by a mock-scan request body, defaulting when absent.
pub fn mock_scan_url(body: &str) -> (r: String)
    ensures
        r@ == mock_target_of(body@),
{
    match json_field_str(body, "url") {
        Some(Some(s)) => s,
        _ => String::from_str("https://example.com"),
    }
}

} // verus!
