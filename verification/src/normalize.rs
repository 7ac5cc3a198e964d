//! The target normalizer: maps an arbitrary user string to a canonical
//! absolute URL string by stripping surrounding whitespace and
//! prepending the secure scheme when no accepted scheme is present.

use vstd::prelude::*;
use vstd::string::*;
use crate::text::{
    char_is_space, is_space_char, seq_starts_with, str_starts_with, trimmed_region_start,
    trimmed_region_end,
};

verus! {

/// Leading whitespace removed.
pub open spec fn trim_front(s: Seq<char>) -> Seq<char>
    decreases s.len(),
{
    if s.len() > 0 && is_space_char(s[0]) {
        trim_front(s.drop_first())
    } else {
        s
    }
}

/// Trailing whitespace removed.
pub open spec fn trim_back(s: Seq<char>) -> Seq<char>
    decreases s.len(),
{
    if s.len() > 0 && is_space_char(s.last()) {
        trim_back(s.drop_last())
    } else {
        s
    }
}

/// Whitespace removed from both ends.
pub open spec fn trim_seq(s: Seq<char>) -> Seq<char> {
    trim_back(trim_front(s))
}

proof fn lemma_trim_front_skip(s: Seq<char>, i: int)
    requires
        0 <= i <= s.len(),
        forall|k: int| 0 <= k < i ==> is_space_char(s[k]),
        i == s.len() || !is_space_char(s[i]),
    ensures
        trim_front(s) == s.skip(i),
    decreases i,
{
    if i == 0 {
        assert(trim_front(s) =~= s.skip(0));
    } else {
        lemma_trim_front_skip(s.drop_first(), i - 1);
        assert(trim_front(s) == trim_front(s.drop_first()));
        assert(s.drop_first().skip(i - 1) =~= s.skip(i));
    }
}

proof fn lemma_trim_back_take(s: Seq<char>, j: int)
    requires
        0 <= j <= s.len(),
        forall|k: int| j <= k < s.len() ==> is_space_char(s[k]),
        j == 0 || !is_space_char(s[j - 1]),
    ensures
        trim_back(s) == s.take(j),
    decreases s.len() - j,
{
    if j == s.len() {
        assert(trim_back(s) =~= s.take(j));
    } else {
        assert(is_space_char(s.last()));
        lemma_trim_back_take(s.drop_last(), j);
        assert(trim_back(s) == trim_back(s.drop_last()));
        assert(s.drop_last().take(j) =~= s.take(j));
    }
}

proof fn lemma_trim_front_ends(s: Seq<char>)
    ensures
        trim_front(s).len() == 0 || !is_space_char(trim_front(s)[0]),
        trim_front(s).len() > 0 ==> trim_front(s).last() == s.last(),
        trim_front(s).len() <= s.len(),
    decreases s.len(),
{
    if s.len() > 0 && is_space_char(s[0]) {
        lemma_trim_front_ends(s.drop_first());
        if trim_front(s).len() > 0 {
            assert(s.drop_first().last() == s.last());
        }
    }
}

proof fn lemma_trim_back_ends(s: Seq<char>)
    ensures
        trim_back(s).len() == 0 || !is_space_char(trim_back(s).last()),
        trim_back(s).len() > 0 ==> trim_back(s)[0] == s[0],
        trim_back(s).len() <= s.len(),
    decreases s.len(),
{
    if s.len() > 0 && is_space_char(s.last()) {
        lemma_trim_back_ends(s.drop_last());
        if trim_back(s).len() > 0 {
            assert(s.drop_last()[0] == s[0]);
        }
    }
}

/// A trimmed sequence has no whitespace at either end.
pub proof fn lemma_trim_seq_ends(s: Seq<char>)
    ensures
        trim_seq(s).len() == 0 || (!is_space_char(trim_seq(s)[0]) && !is_space_char(
            trim_seq(s).last(),
        )),
{
    lemma_trim_front_ends(s);
    lemma_trim_back_ends(trim_front(s));
    if trim_seq(s).len() > 0 {
        assert(trim_seq(s)[0] == trim_front(s)[0]);
    }
}

/// Trimming a sequence without whitespace at its ends changes nothing.
pub proof fn lemma_trim_of_clean(s: Seq<char>)
    requires
        s.len() == 0 || (!is_space_char(s[0]) && !is_space_char(s.last())),
    ensures
        trim_seq(s) == s,
{
    assert(trim_front(s) == s);
    assert(trim_back(s) == s);
}

/// Executable trim matching `trim_seq`.
pub fn trimmed(s: &str) -> (r: String)
    ensures
        r@ == trim_seq(s@),
{
    let n = s.unicode_len();
    let i = trimmed_region_start(s);
    let j = trimmed_region_end(s, i);
    proof {
        lemma_trim_front_skip(s@, i as int);
        assert forall|k: int| j - i <= k < s@.skip(i as int).len() implies is_space_char(
            #[trigger] s@.skip(i as int)[k],
        ) by {
            assert(s@.skip(i as int)[k] == s@[k + i]);
        }
        lemma_trim_back_take(s@.skip(i as int), j - i);
    }
    let mut r = String::new();
    let mut k: usize = i;
    while k < j
        invariant
            n == s@.len(),
            i <= k <= j <= n,
            r@ == s@.skip(i as int).take(k - i),
        decreases j - k,
    {
        r.push(s.get_char(k));
        proof {
            assert(s@.skip(i as int).take(k + 1 - i) =~= s@.skip(i as int).take(k - i).push(
                s@[k as int],
            ));
        }
        k = k + 1;
    }
    proof {
        assert(trim_seq(s@) == s@.skip(i as int).take(j - i));
    }
    r
}

/// The prefix prepended to schemeless targets.
pub open spec fn secure_scheme() -> Seq<char> {
    "https://"@
}

/// The target already names an accepted scheme.
pub open spec fn has_scheme(s: Seq<char>) -> bool {
    seq_starts_with(s, "http://"@) || seq_starts_with(s, "https://"@)
}

/// What the normalizer returns: the trimmed input, with the secure
/// scheme prepended when no accepted scheme is present.
pub open spec fn spec_normalize(s: Seq<char>) -> Seq<char> {
    if has_scheme(trim_seq(s)) {
        trim_seq(s)
    } else {
        secure_scheme() + trim_seq(s)
    }
}

/// Canonicalize a raw target string.
pub fn normalize_target(t: &str) -> (r: String)
    ensures
        r@ == spec_normalize(t@),
{
    let tr = trimmed(t);
    if str_starts_with(tr.as_str(), "http://") || str_starts_with(tr.as_str(), "https://") {
        tr
    } else {
        let mut r = String::from_str("https://");
        r.append(tr.as_str());
        r
    }
}

/// A normalized target always carries an accepted scheme; when the
/// input had none, exactly one secure-scheme prefix was prepended and
/// the rest of the string is the trimmed input, unchanged.
pub proof fn lemma_normalize_prefix(s: Seq<char>)
    ensures
        has_scheme(spec_normalize(s)),
        !has_scheme(trim_seq(s)) ==> spec_normalize(s) == secure_scheme() + trim_seq(s),
        !has_scheme(trim_seq(s)) ==> spec_normalize(s).skip(secure_scheme().len() as int)
            == trim_seq(s),
{
    reveal_strlit("https://");
    if !has_scheme(trim_seq(s)) {
        let r = secure_scheme() + trim_seq(s);
        assert(r.subrange(0, 8) =~= "https://"@);
        assert(r.skip(8) =~= trim_seq(s));
    }
}

/// The normalizer is idempotent: normalizing an already-normalized
/// string returns it unchanged.
pub proof fn lemma_normalize_idempotent(s: Seq<char>)
    ensures
        spec_normalize(spec_normalize(s)) == spec_normalize(s),
{
    reveal_strlit("https://");
    reveal_strlit("http://");
    lemma_trim_seq_ends(s);
    let t = trim_seq(s);
    if has_scheme(t) {
        if seq_starts_with(t, "http://"@) {
            assert(t.subrange(0, "http://"@.len() as int)[0] == t[0]);
        } else {
            assert(t.subrange(0, "https://"@.len() as int)[0] == t[0]);
        }
        assert(t.len() > 0 && t[0] == 'h');
        lemma_trim_of_clean(t);
    } else {
        let r = secure_scheme() + t;
        assert(r[0] == 'h');
        if t.len() > 0 {
            assert(r.last() == t.last());
        } else {
            assert(r =~= "https://"@);
            assert(r.last() == '/');
        }
        lemma_trim_of_clean(r);
        assert(r.subrange(0, 8) =~= "https://"@);
        assert(has_scheme(r));
    }
}

} // verus!
