//! URL absolutization: a candidate URL string (possibly relative, a data
//! URI, or a bare fragment) is turned into an absolute http/https URL
//! against the page's base URL, or rejected. Parsing and joining are done
//! by the `url` crate; their results are named by uninterpreted spec
//! functions and everything around them is verified.

use vstd::prelude::*;
use vstd::string::StringExecFns;
use crate::text::{spec_trim, trim_str, str_eq, is_ws_char, ltrim, rtrim};
use crate::strops::{spec_starts_with, str_starts_with};

verus! {

/// Whether `url::Url::parse` accepts the string as an absolute URL.
pub uninterp spec fn url_parse_ok(s: Seq<char>) -> bool;

/// The scheme of the URL that `url::Url::parse` reads out of the string.
pub uninterp spec fn url_scheme(s: Seq<char>) -> Seq<char>;

/// Whether parsing the base and joining the candidate against it, per the
/// URL standard's rules, succeeds.
pub uninterp spec fn url_join_ok(base: Seq<char>, rel: Seq<char>) -> bool;

/// The serialization of the URL obtained by joining the candidate against
/// the base.
pub uninterp spec fn url_join(base: Seq<char>, rel: Seq<char>) -> Seq<char>;

/// Whether the string parses as a URL that carries a host.
pub uninterp spec fn url_host_ok(s: Seq<char>) -> bool;

/// The host part of the URL parsed from the string.
pub uninterp spec fn url_host(s: Seq<char>) -> Seq<char>;

/// Relies on `url::Url::parse` and `url::Url::scheme`: parses an
/// absolute URL string and hands back its scheme; a relative or
/// malformed string is refused.
#[verifier::external_body]
fn parse_scheme(s: &str) -> (r: Option<String>)
    ensures
        r is Some <==> url_parse_ok(s@),
        r matches Some(sch) ==> sch@ == url_scheme(s@),
{
    match url::Url::parse(s) {
        Ok(u) => Some(u.scheme().to_string()),
        Err(_) => None,
    }
}

/// Relies on `url::Url::parse` and `url::Url::join`: resolves a candidate
/// against a base URL per the URL standard's joining rules.
#[verifier::external_body]
pub(crate) fn join_url(base: &str, rel: &str) -> (r: Option<String>)
    ensures
        r is Some <==> url_join_ok(base@, rel@),
        r matches Some(u) ==> u@ == url_join(base@, rel@),
{
    match url::Url::parse(base) {
        Ok(b) => match b.join(rel) {
            Ok(u) => Some(u.as_str().to_string()),
            Err(_) => None,
        },
        Err(_) => None,
    }
}

/// Relies on `url::Url::parse` and `url::Url::host_str`: the host part of
/// the given URL string, if it parses and has one.
#[verifier::external_body]
pub(crate) fn host_of(s: &str) -> (r: Option<String>)
    ensures
        r is Some <==> url_host_ok(s@),
        r matches Some(h) ==> h@ == url_host(s@),
{
    match url::Url::parse(s) {
        Ok(u) => u.host_str().map(|h| h.to_string()),
        Err(_) => None,
    }
}

/// The view of an optional string.
pub open spec fn opt_view(o: Option<String>) -> Option<Seq<char>> {
    match o {
        Some(s) => Some(s@),
        None => None,
    }
}

/// What absolutization returns: the candidate is trimmed; a data URI or a
/// bare fragment is rejected; an absolute http/https URL is accepted
/// as-is; an absolute URL of any other scheme is rejected; anything else
/// is joined against the base where the joining rules allow it.
pub open spec fn spec_absolutise(base: Seq<char>, candidate: Seq<char>) -> Option<Seq<char>> {
    let c = spec_trim(candidate);
    if spec_starts_with(c, "data:"@) || spec_starts_with(c, "#"@) {
        None
    } else if url_parse_ok(c) {
        if url_scheme(c) == "http"@ || url_scheme(c) == "https"@ {
            Some(c)
        } else {
            None
        }
    } else if url_join_ok(base, c) {
        Some(url_join(base, c))
    } else {
        None
    }
}

/// Converts a candidate URL string into an absolute http/https URL
/// relative to the base page URL, or rejects it; every image and
/// thumbnail strategy passes its candidates through here.
pub fn absolutise(base: &str, candidate: &str) -> (r: Option<String>)
    ensures
        opt_view(r) == spec_absolutise(base@, candidate@),
{
    let c = trim_str(candidate);
    if str_starts_with(c, "data:") || str_starts_with(c, "#") {
        return None;
    }
    match parse_scheme(c) {
        Some(scheme) => {
            if str_eq(scheme.as_str(), "http") || str_eq(scheme.as_str(), "https") {
                Some(String::from_str(c))
            } else {
                None
            }
        },
        None => join_url(base, c),
    }
}

proof fn lemma_rtrim_keeps(s: Seq<char>, i: int)
    requires
        0 <= i < s.len(),
        !is_ws_char(s[i]),
    ensures
        i < rtrim(s).len() <= s.len(),
        forall|j: int| 0 <= j < rtrim(s).len() ==> #[trigger] rtrim(s)[j] == s[j],
    decreases s.len(),
{
    if s.len() > 0 && is_ws_char(s.last()) {
        let d = s.drop_last();
        lemma_rtrim_keeps(d, i);
        assert forall|j: int| 0 <= j < rtrim(s).len() implies #[trigger] rtrim(s)[j] == s[j] by {
            assert(rtrim(s) == rtrim(d));
            assert(rtrim(d)[j] == d[j]);
            assert(d[j] == s[j]);
        }
    }
}

/// Where the candidate itself carries a leading `data:` or `#`, trimming
/// keeps that prefix.
proof fn lemma_trim_keeps_prefix(candidate: Seq<char>, p: Seq<char>)
    requires
        spec_starts_with(candidate, p),
        p.len() > 0,
        forall|j: int| 0 <= j < p.len() ==> !is_ws_char(#[trigger] p[j]),
    ensures
        spec_starts_with(spec_trim(candidate), p),
{
    let t = candidate.take(p.len() as int);
    assert(forall|j: int| 0 <= j < p.len() ==> #[trigger] candidate[j] == t[j] && t[j] == p[j]);
    assert(!is_ws_char(candidate[0]));
    assert(ltrim(candidate) == candidate);
    assert(!is_ws_char(candidate[p.len() - 1]));
    lemma_rtrim_keeps(candidate, p.len() - 1);
    let r = rtrim(candidate);
    assert(r.take(p.len() as int) =~= p) by {
        assert(forall|j: int| 0 <= j < p.len() ==> r[j] == candidate[j]);
        assert(forall|j: int| 0 <= j < p.len() ==> t[j] == candidate[j] && t[j] == p[j]);
    }
}

/// A data URI is always rejected, whatever the base.
pub proof fn lemma_absolutise_rejects_data(base: Seq<char>, candidate: Seq<char>)
    requires
        spec_starts_with(candidate, "data:"@),
    ensures
        spec_absolutise(base, candidate) is None,
{
    reveal_strlit("data:");
    assert(forall|j: int| 0 <= j < "data:"@.len() ==> !is_ws_char(#[trigger] "data:"@[j]));
    lemma_trim_keeps_prefix(candidate, "data:"@);
}

/// A bare fragment is always rejected, whatever the base.
pub proof fn lemma_absolutise_rejects_fragment(base: Seq<char>, candidate: Seq<char>)
    requires
        spec_starts_with(candidate, "#"@),
    ensures
        spec_absolutise(base, candidate) is None,
{
    reveal_strlit("#");
    reveal_strlit("data:");
    assert(forall|j: int| 0 <= j < "#"@.len() ==> !is_ws_char(#[trigger] "#"@[j]));
    lemma_trim_keeps_prefix(candidate, "#"@);
}

/// A candidate that parses as an absolute URL with scheme `http` or
/// `https` is accepted exactly as it stands (after trimming), whatever
/// the base.
pub proof fn lemma_absolutise_absolute(base: Seq<char>, candidate: Seq<char>)
    requires
        url_parse_ok(spec_trim(candidate)),
        url_scheme(spec_trim(candidate)) == "http"@ || url_scheme(spec_trim(candidate))
            == "https"@,
        !spec_starts_with(spec_trim(candidate), "data:"@),
        !spec_starts_with(spec_trim(candidate), "#"@),
    ensures
        spec_absolutise(base, candidate) == Some(spec_trim(candidate)),
{
}

/// A candidate that does not parse as an absolute URL is joined against
/// the base where the joining rules allow it.
pub proof fn lemma_absolutise_relative(base: Seq<char>, candidate: Seq<char>)
    requires
        !url_parse_ok(spec_trim(candidate)),
        url_join_ok(base, spec_trim(candidate)),
        !spec_starts_with(spec_trim(candidate), "data:"@),
        !spec_starts_with(spec_trim(candidate), "#"@),
    ensures
        spec_absolutise(base, candidate) == Some(url_join(base, spec_trim(candidate))),
{
}

} // verus!
