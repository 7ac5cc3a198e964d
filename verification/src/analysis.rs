//! The analysis engine: a pure, deterministic function from a fetched
//! response — status code, headers and body text — to an ordered list
//! of findings.
//!
//! The order is fixed: missing checklist headers first (in checklist
//! order), then the form-count finding, then technology hints from
//! generator metas (in document order), then the non-OK status
//! finding, then the insecure-scheme finding.

use vstd::prelude::*;
use vstd::string::*;
use crate::text::{
    contains_seq, dec_digits, lower_seq, seq_starts_with, str_contains, str_starts_with,
    to_lower_string, u64_to_decimal,
};

verus! {

/// Ghost model of a `ScanResult`.
pub ghost struct ScanResultView {
    pub url: Seq<char>,
    pub status: u16,
    pub headers: Seq<(Seq<char>, Seq<char>)>,
    pub security_findings: Seq<Seq<char>>,
}

/// The outcome of one successful fetch-and-analyze pass.
#[derive(Debug)]
pub struct ScanResult {
    pub url: String,
    pub status: u16,
    pub headers: Vec<(String, String)>,
    pub security_findings: Vec<String>,
}

impl View for ScanResult {
    type V = ScanResultView;

    open spec fn view(&self) -> ScanResultView {
        ScanResultView {
            url: self.url@,
            status: self.status,
            headers: self.headers.deep_view(),
            security_findings: self.security_findings.deep_view(),
        }
    }
}

/// The fixed checklist of security response headers, in report order.
pub open spec fn checklist() -> Seq<Seq<char>> {
    seq![
        "content-security-policy"@,
        "x-frame-options"@,
        "x-xss-protection"@,
        "strict-transport-security"@,
        "x-content-type-options"@,
        "referrer-policy"@,
    ]
}

/// A header with the given lowercase name is present, whatever the
/// case of the stored key.
pub open spec fn has_header(headers: Seq<(Seq<char>, Seq<char>)>, name: Seq<char>) -> bool {
    exists|i: int| 0 <= i < headers.len() && lower_seq((#[trigger] headers[i]).0) == name
}

/// The finding for one checklist header: one message when absent,
/// nothing when present.
pub open spec fn missing_one(headers: Seq<(Seq<char>, Seq<char>)>, name: Seq<char>) -> Seq<
    Seq<char>,
> {
    if has_header(headers, name) {
        Seq::empty()
    } else {
        seq!["Missing header: "@ + name]
    }
}

/// Missing-header findings for a list of names, in list order.
pub open spec fn missing_header_findings(
    headers: Seq<(Seq<char>, Seq<char>)>,
    names: Seq<Seq<char>>,
) -> Seq<Seq<char>>
    decreases names.len(),
{
    if names.len() == 0 {
        Seq::empty()
    } else {
        missing_one(headers, names[0]) + missing_header_findings(headers, names.drop_first())
    }
}

/// The form-count finding: present exactly when the document holds at
/// least one form element.
pub open spec fn form_finding(count: int) -> Seq<Seq<char>> {
    if count > 0 {
        seq!["Found "@ + dec_digits(count) + " HTML form(s)."@]
    } else {
        Seq::empty()
    }
}

/// The technology finding for one meta element, when its name contains
/// `generator` in any case.
pub open spec fn generator_one(meta: (Seq<char>, Seq<char>)) -> Seq<Seq<char>> {
    if contains_seq(lower_seq(meta.0), "generator"@) {
        seq!["Technology info: "@ + meta.1]
    } else {
        Seq::empty()
    }
}

/// Technology findings for the metas of a document, in document order.
pub open spec fn generator_findings(metas: Seq<(Seq<char>, Seq<char>)>) -> Seq<Seq<char>>
    decreases metas.len(),
{
    if metas.len() == 0 {
        Seq::empty()
    } else {
        generator_one(metas[0]) + generator_findings(metas.drop_first())
    }
}

/// The non-OK status finding: present exactly when the status is
/// outside `[200, 399]`.
pub open spec fn status_finding(status: u16) -> Seq<Seq<char>> {
    if 200 <= status <= 399 {
        Seq::empty()
    } else {
        seq!["Non-OK HTTP status: "@ + dec_digits(status as int)]
    }
}

/// The insecure-scheme finding: present exactly when the URL does not
/// use the secure scheme.
pub open spec fn scheme_finding(url: Seq<char>) -> Seq<Seq<char>> {
    if seq_starts_with(lower_seq(url), "https://"@) {
        Seq::empty()
    } else {
        seq!["Target is not using HTTPS (heuristic)"@]
    }
}

/// Every finding of one response, in the mandated order.
pub open spec fn analysis_findings(
    url: Seq<char>,
    status: u16,
    headers: Seq<(Seq<char>, Seq<char>)>,
    form_count: int,
    metas: Seq<(Seq<char>, Seq<char>)>,
) -> Seq<Seq<char>> {
    missing_header_findings(headers, checklist()) + form_finding(form_count) + generator_findings(
        metas,
    ) + status_finding(status) + scheme_finding(url)
}

/// Number of `form` elements in a parsed HTML document, a function of
/// the document text alone.
pub uninterp spec fn form_count_of(body: Seq<char>) -> int;

/// Relies on scraper (`Html::parse_document` and the `form` selector):
/// counts the form elements of the document. The constant selector
/// always parses.
#[verifier::external_body]
fn count_forms(body: &str) -> (r: u64)
    ensures
        r as int == form_count_of(body@),
{
    let document = scraper::Html::parse_document(body);
    let selector = scraper::Selector::parse("form").unwrap();
    document.select(&selector).count() as u64
}

/// The `(name, content)` attribute pairs of the document's `meta`
/// elements that carry both attributes, in document order; a function
/// of the document text alone.
pub uninterp spec fn meta_name_contents_of(body: Seq<char>) -> Seq<(Seq<char>, Seq<char>)>;

/// Relies on scraper (`Html::parse_document` and the
/// `meta[name][content]` selector): collects the name and content
/// attributes of each matching meta element, in document order. The
/// selector guarantees both attributes, so the lookups cannot fail.
#[verifier::external_body]
fn meta_name_contents(body: &str) -> (r: Vec<(String, String)>)
    ensures
        r.deep_view() == meta_name_contents_of(body@),
{
    let document = scraper::Html::parse_document(body);
    let selector = scraper::Selector::parse("meta[name][content]").unwrap();
    document.select(&selector).map(
        |m| (m.attr("name").unwrap().to_string(), m.attr("content").unwrap().to_string()),
    ).collect()
}

/// Executable equality of string slices.
pub fn str_eq(a: &str, b: &str) -> (r: bool)
    ensures
        r == (a@ == b@),
{
    let n = a.unicode_len();
    let m = b.unicode_len();
    if n != m {
        return false;
    }
    let mut i: usize = 0;
    while i < n
        invariant
            n == a@.len(),
            n == b@.len(),
            i <= n,
            forall|k: int| 0 <= k < i ==> a@[k] == b@[k],
        decreases n - i,
    {
        if a.get_char(i) != b.get_char(i) {
            return false;
        }
        i = i + 1;
    }
    proof {
        assert(a@ =~= b@);
    }
    true
}

/// Case-insensitive presence test for a header name.
fn has_header_exec(headers: &Vec<(String, String)>, name: &str) -> (r: bool)
    ensures
        r == has_header(headers.deep_view(), name@),
{
    let n = headers.len();
    let mut i: usize = 0;
    while i < n
        invariant
            n == headers@.len(),
            i <= n,
            forall|k: int|
                0 <= k < i ==> lower_seq((#[trigger] headers.deep_view()[k]).0) != name@,
        decreases n - i,
    {
        let low = to_lower_string(headers[i].0.as_str());
        if str_eq(low.as_str(), name) {
            proof {
                assert(lower_seq(headers.deep_view()[i as int].0) == name@);
            }
            return true;
        }
        i = i + 1;
    }
    false
}

/// Append the missing-header finding for one checklist name.
fn push_missing(findings: &mut Vec<String>, headers: &Vec<(String, String)>, name: &str)
    ensures
        final(findings).deep_view() == old(findings).deep_view() + missing_one(
            headers.deep_view(),
            name@,
        ),
{
    let ghost before = findings.deep_view();
    if !has_header_exec(headers, name) {
        let f = String::from_str("Missing header: ").concat(name);
        findings.push(f);
        proof {
            assert(findings.deep_view() =~= before + missing_one(headers.deep_view(), name@));
        }
    } else {
        proof {
            assert(findings.deep_view() =~= before + missing_one(headers.deep_view(), name@));
        }
    }
}

/// Append the six checklist findings, in checklist order.
#[verifier::rlimit(50)]
fn push_all_missing(findings: &mut Vec<String>, headers: &Vec<(String, String)>)
    ensures
        final(findings).deep_view() == old(findings).deep_view() + missing_header_findings(
            headers.deep_view(),
            checklist(),
        ),
{
    let ghost hs = headers.deep_view();
    let ghost base = findings.deep_view();
    push_missing(findings, headers, "content-security-policy");
    push_missing(findings, headers, "x-frame-options");
    push_missing(findings, headers, "x-xss-protection");
    push_missing(findings, headers, "strict-transport-security");
    push_missing(findings, headers, "x-content-type-options");
    push_missing(findings, headers, "referrer-policy");
    proof {
        reveal_with_fuel(missing_header_findings, 8);
        let cl = checklist();
        assert(cl.drop_first() =~= seq![
            "x-frame-options"@,
            "x-xss-protection"@,
            "strict-transport-security"@,
            "x-content-type-options"@,
            "referrer-policy"@,
        ]);
        assert(cl.drop_first().drop_first() =~= seq![
            "x-xss-protection"@,
            "strict-transport-security"@,
            "x-content-type-options"@,
            "referrer-policy"@,
        ]);
        assert(cl.drop_first().drop_first().drop_first() =~= seq![
            "strict-transport-security"@,
            "x-content-type-options"@,
            "referrer-policy"@,
        ]);
        assert(cl.drop_first().drop_first().drop_first().drop_first() =~= seq![
            "x-content-type-options"@,
            "referrer-policy"@,
        ]);
        assert(cl.drop_first().drop_first().drop_first().drop_first().drop_first() =~= seq![
            "referrer-policy"@,
        ]);
        assert(cl.drop_first().drop_first().drop_first().drop_first().drop_first().drop_first()
            =~= Seq::<Seq<char>>::empty());
        assert(findings.deep_view() =~= base + missing_header_findings(hs, cl));
    }
}

/// Header pairs with their names lowercased, values untouched.
pub open spec fn lower_header_keys(hs: Seq<(Seq<char>, Seq<char>)>) -> Seq<(Seq<char>, Seq<char>)> {
    hs.map_values(|p: (Seq<char>, Seq<char>)| (lower_seq(p.0), p.1))
}

/// Copy headers, lowercasing each name.
pub fn normalize_headers(headers: &Vec<(String, String)>) -> (r: Vec<(String, String)>)
    ensures
        r.deep_view() == lower_header_keys(headers.deep_view()),
{
    let n = headers.len();
    let mut r: Vec<(String, String)> = Vec::new();
    let mut i: usize = 0;
    while i < n
        invariant
            n == headers@.len(),
            i <= n,
            r@.len() == i,
            r.deep_view() =~= lower_header_keys(headers.deep_view()).take(i as int),
        decreases n - i,
    {
        let low = to_lower_string(headers[i].0.as_str());
        let v = headers[i].1.clone();
        r.push((low, v));
        proof {
            assert(headers.deep_view()[i as int] == (headers@[i as int].0@, headers@[
                i as int
            ].1@));
            assert(r@.len() == i + 1);
            assert(r@[i as int] == (low, v));
            assert(r@[i as int].deep_view().0 == low@);
            assert(r@[i as int].deep_view().1 == v@);
            assert(r.deep_view()[i as int] == (low@, v@));
            assert(lower_header_keys(headers.deep_view())[i as int] == (
                lower_seq(headers.deep_view()[i as int].0),
                headers.deep_view()[i as int].1,
            ));
            assert(r.deep_view() =~= lower_header_keys(headers.deep_view()).take(i + 1));
        }
        i = i + 1;
    }
    proof {
        assert(lower_header_keys(headers.deep_view()).take(n as int) =~= lower_header_keys(
            headers.deep_view(),
        ));
    }
    r
}

/// The findings of one response, as a function of the raw fetch data.
pub open spec fn response_findings(
    url: Seq<char>,
    status: u16,
    headers: Seq<(Seq<char>, Seq<char>)>,
    body: Seq<char>,
) -> Seq<Seq<char>> {
    analysis_findings(url, status, headers, form_count_of(body), meta_name_contents_of(body))
}

/// The analysis engine is deterministic: two findings lists computed
/// from the same status, headers and body (and the same effective URL)
/// are identical, byte for byte and in the same order.
pub proof fn lemma_analysis_deterministic(
    r1: Seq<Seq<char>>,
    r2: Seq<Seq<char>>,
    url: Seq<char>,
    status: u16,
    headers: Seq<(Seq<char>, Seq<char>)>,
    body: Seq<char>,
)
    requires
        r1 == response_findings(url, status, headers, body),
        r2 == response_findings(url, status, headers, body),
    ensures
        r1 == r2,
{
}

/// Compute every finding of one response, in the mandated order.
pub fn compute_findings(
    url: &str,
    status: u16,
    headers: &Vec<(String, String)>,
    body: &str,
) -> (findings: Vec<String>)
    ensures
        findings.deep_view() == response_findings(url@, status, headers.deep_view(), body@),
{
    let ghost hs = headers.deep_view();
    let mut findings: Vec<String> = Vec::new();
    push_all_missing(&mut findings, headers);
    proof {
        assert(findings.deep_view() =~= missing_header_findings(hs, checklist()));
    }
    let ghost after_headers = findings.deep_view();

    let form_count = count_forms(body);
    if form_count > 0 {
        let dec = u64_to_decimal(form_count);
        let f = String::from_str("Found ").concat(dec.as_str()).concat(" HTML form(s).");
        findings.push(f);
    }
    proof {
        assert(findings.deep_view() =~= after_headers + form_finding(form_count_of(body@)));
    }
    let ghost after_forms = findings.deep_view();

    let metas = meta_name_contents(body);
    let ghost ms = metas.deep_view();
    let m = metas.len();
    let mut j: usize = 0;
    while j < m
        invariant
            m == metas@.len(),
            ms == metas.deep_view(),
            j <= m,
            findings.deep_view() =~= after_forms + generator_findings(ms.take(j as int)),
        decreases m - j,
    {
        let ghost before = findings.deep_view();
        let low = to_lower_string(metas[j].0.as_str());
        if str_contains(low.as_str(), "generator") {
            let f = String::from_str("Technology info: ").concat(metas[j].1.as_str());
            findings.push(f);
            proof {
                assert(findings.deep_view() =~= before + generator_one(ms[j as int]));
            }
        } else {
            proof {
                assert(findings.deep_view() =~= before + generator_one(ms[j as int]));
            }
        }
        proof {
            lemma_generator_take_step(ms, j as int);
            assert(findings.deep_view() =~= after_forms + generator_findings(ms.take(j + 1)));
        }
        j = j + 1;
    }
    proof {
        assert(ms.take(m as int) =~= ms);
    }
    let ghost after_metas = findings.deep_view();

    if !(200 <= status && status <= 399) {
        let dec = u64_to_decimal(status as u64);
        let f = String::from_str("Non-OK HTTP status: ").concat(dec.as_str());
        findings.push(f);
    }
    proof {
        assert(findings.deep_view() =~= after_metas + status_finding(status));
    }
    let ghost after_status = findings.deep_view();

    let low_url = to_lower_string(url);
    if !str_starts_with(low_url.as_str(), "https://") {
        let f = String::from_str("Target is not using HTTPS (heuristic)");
        findings.push(f);
    }
    proof {
        assert(findings.deep_view() =~= after_status + scheme_finding(url@));
        assert(findings.deep_view() =~= response_findings(url@, status, hs, body@));
    }
    findings
}

proof fn lemma_generator_take_step(ms: Seq<(Seq<char>, Seq<char>)>, j: int)
    requires
        0 <= j < ms.len(),
    ensures
        generator_findings(ms.take(j + 1)) == generator_findings(ms.take(j)) + generator_one(
            ms[j],
        ),
    decreases j,
{
    if j == 0 {
        assert(ms.take(1).drop_first() =~= Seq::<(Seq<char>, Seq<char>)>::empty());
        assert(ms.take(0) =~= Seq::<(Seq<char>, Seq<char>)>::empty());
        assert(ms.take(1)[0] == ms[0]);
        assert(generator_findings(Seq::<(Seq<char>, Seq<char>)>::empty())
            == Seq::<Seq<char>>::empty());
        assert(generator_findings(ms.take(1)) == generator_one(ms[0]) + generator_findings(
            Seq::<(Seq<char>, Seq<char>)>::empty(),
        ));
        assert(generator_findings(ms.take(1)) =~= generator_one(ms[0]));
        assert(generator_findings(ms.take(0)) + generator_one(ms[0]) =~= generator_one(ms[0]));
    } else {
        lemma_generator_take_step(ms.drop_first(), j - 1);
        assert(ms.take(j + 1).drop_first() =~= ms.drop_first().take(j));
        assert(ms.take(j).drop_first() =~= ms.drop_first().take(j - 1));
        assert(ms.take(j + 1)[0] == ms[0]);
        assert(ms.take(j)[0] == ms[0]);
        assert(ms.drop_first()[j - 1] == ms[j]);
        assert(generator_findings(ms.take(j + 1)) == generator_one(ms[0]) + generator_findings(
            ms.drop_first().take(j),
        ));
        assert(generator_findings(ms.take(j)) == generator_one(ms[0]) + generator_findings(
            ms.drop_first().take(j - 1),
        ));
        assert(generator_one(ms[0]) + (generator_findings(ms.drop_first().take(j - 1))
            + generator_one(ms[j])) =~= (generator_one(ms[0]) + generator_findings(
            ms.drop_first().take(j - 1),
        )) + generator_one(ms[j]));
    }
}

/// Run the analysis engine over one fetched response and assemble the
/// scan result: the effective URL, the status, the header map with
/// lowercased names, and the ordered findings.
pub fn analyze_response(
    url: String,
    status: u16,
    headers: Vec<(String, String)>,
    body: &str,
) -> (r: ScanResult)
    ensures
        r@.url == url@,
        r@.status == status,
        r@.headers == lower_header_keys(headers.deep_view()),
        r@.security_findings == response_findings(url@, status, headers.deep_view(), body@),
{
    let findings = compute_findings(url.as_str(), status, &headers, body);
    let normalized = normalize_headers(&headers);
    ScanResult { url, status, headers: normalized, security_findings: findings }
}

} // verus!
