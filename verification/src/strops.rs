//! String predicates the resolution engine relies on: case-insensitive
//! comparison (for Dublin Core meta names), prefix and substring search
//! (for URL scheme checks and oEmbed endpoint discovery), the CSS `~=`
//! word match (for `rel` attribute lists), and the lexicographic order
//! that picks the primary author.

use vstd::prelude::*;
use vstd::string::StrSliceExecFns;

verus! {

/// The ASCII-lowercased code point: `A`..`Z` shifted to `a`..`z`, all
/// others unchanged.
pub open spec fn lower_u32(n: u32) -> u32 {
    if 65 <= n && n <= 90 {
        (n + 32) as u32
    } else {
        n
    }
}

fn lower_code(n: u32) -> (r: u32)
    ensures
        r == lower_u32(n),
{
    if 65 <= n && n <= 90 {
        n + 32
    } else {
        n
    }
}

/// Whether two sequences are equal up to ASCII case.
pub open spec fn eq_ci(a: Seq<char>, b: Seq<char>) -> bool {
    a.len() == b.len() && forall|i: int|
        0 <= i < a.len() ==> #[trigger] lower_u32(a[i] as u32) == lower_u32(b[i] as u32)
}

/// Compares two string slices up to ASCII case, as
/// `str::eq_ignore_ascii_case` does for ASCII arguments.
pub fn str_eq_ci(a: &str, b: &str) -> (r: bool)
    ensures
        r == eq_ci(a@, b@),
{
    let na = a.unicode_len();
    let nb = b.unicode_len();
    if na != nb {
        return false;
    }
    let mut i: usize = 0;
    while i < na
        invariant
            i <= na,
            na == a@.len(),
            na == b@.len(),
            forall|j: int| 0 <= j < i ==> #[trigger] lower_u32(a@[j] as u32) == lower_u32(b@[j] as u32),
        decreases na - i,
    {
        if lower_code(a.get_char(i) as u32) != lower_code(b.get_char(i) as u32) {
            return false;
        }
        i += 1;
    }
    true
}

/// Whether `s` begins with `p`, up to ASCII case.
pub open spec fn spec_starts_with_ci(s: Seq<char>, p: Seq<char>) -> bool {
    s.len() >= p.len() && eq_ci(s.take(p.len() as int), p)
}

/// Tests a prefix up to ASCII case.
pub fn starts_with_ci(s: &str, p: &str) -> (r: bool)
    ensures
        r == spec_starts_with_ci(s@, p@),
{
    let ns = s.unicode_len();
    let np = p.unicode_len();
    if ns < np {
        return false;
    }
    let mut i: usize = 0;
    while i < np
        invariant
            i <= np,
            np <= ns,
            ns == s@.len(),
            np == p@.len(),
            forall|j: int| 0 <= j < i ==> #[trigger] lower_u32(s@[j] as u32) == lower_u32(p@[j] as u32),
        decreases np - i,
    {
        if lower_code(s.get_char(i) as u32) != lower_code(p.get_char(i) as u32) {
            proof {
                let t = s@.take(np as int);
                assert(t[i as int] == s@[i as int]);
            }
            return false;
        }
        i += 1;
    }
    proof {
        let t = s@.take(np as int);
        assert(forall|j: int|
            0 <= j < np ==> #[trigger] lower_u32(t[j] as u32) == lower_u32(p@[j] as u32));
    }
    true
}

/// Whether a candidate author string is really a link: it begins with
/// `http://` or `https://` in any ASCII case.
pub open spec fn spec_looks_like_url(s: Seq<char>) -> bool {
    spec_starts_with_ci(s, "http://"@) || spec_starts_with_ci(s, "https://"@)
}

/// Whether a string looks like an absolute http(s) URL; such strings are
/// not author names.
pub fn looks_like_url(s: &str) -> (r: bool)
    ensures
        r == spec_looks_like_url(s@),
{
    starts_with_ci(s, "http://") || starts_with_ci(s, "https://")
}

/// Whether `s` begins with `p`, exactly.
pub open spec fn spec_starts_with(s: Seq<char>, p: Seq<char>) -> bool {
    s.len() >= p.len() && s.take(p.len() as int) == p
}

/// Tests an exact prefix.
pub fn str_starts_with(s: &str, p: &str) -> (r: bool)
    ensures
        r == spec_starts_with(s@, p@),
{
    let ns = s.unicode_len();
    let np = p.unicode_len();
    if ns < np {
        return false;
    }
    let mut i: usize = 0;
    while i < np
        invariant
            i <= np,
            np <= ns,
            ns == s@.len(),
            np == p@.len(),
            forall|j: int| 0 <= j < i ==> s@[j] == p@[j],
        decreases np - i,
    {
        if s.get_char(i) != p.get_char(i) {
            proof {
                let t = s@.take(np as int);
                assert(t[i as int] == s@[i as int]);
            }
            return false;
        }
        i += 1;
    }
    proof {
        assert(s@.take(np as int) =~= p@);
    }
    true
}

/// Whether `p` occurs in `s` as a contiguous run.
pub open spec fn spec_contains(s: Seq<char>, p: Seq<char>) -> bool {
    exists|k: int| 0 <= k <= s.len() - p.len() && #[trigger] s.subrange(k, k + p.len() as int) == p
}

/// Substring search, as `str::contains` decides it.
pub fn str_contains(s: &str, p: &str) -> (r: bool)
    ensures
        r == spec_contains(s@, p@),
{
    let ns = s.unicode_len();
    let np = p.unicode_len();
    if np > ns {
        return false;
    }
    if np == 0 {
        proof {
            assert(s@.subrange(0, 0 + p@.len() as int) =~= p@);
        }
        return true;
    }
    let mut k: usize = 0;
    while k <= ns - np
        invariant
            1 <= np <= ns,
            ns == s@.len(),
            np == p@.len(),
            k <= ns - np + 1,
            forall|k0: int| 0 <= k0 < k ==> #[trigger] s@.subrange(k0, k0 + np as int) != p@,
        decreases ns - np - k + 1,
    {
        let mut j: usize = 0;
        let mut hit = true;
        while j < np
            invariant
                j <= np,
                k + np <= ns,
                ns == s@.len(),
                np == p@.len(),
                hit ==> forall|j0: int| 0 <= j0 < j ==> s@[k + j0] == p@[j0],
                !hit ==> s@.subrange(k as int, k as int + np as int) != p@,
            decreases np - j,
        {
            if s.get_char(k + j) != p.get_char(j) {
                proof {
                    let t = s@.subrange(k as int, k as int + np as int);
                    assert(t[j as int] == s@[k + j as int]);
                }
                hit = false;
                j = np;
            } else {
                j += 1;
            }
        }
        if hit {
            proof {
                assert(s@.subrange(k as int, k as int + np as int) =~= p@);
            }
            return true;
        }
        k += 1;
    }
    proof {
        if spec_contains(s@, p@) {
            let k0 = choose|k0: int|
                0 <= k0 <= s@.len() - p@.len() && #[trigger] s@.subrange(k0, k0 + p@.len() as int)
                    == p@;
            assert(false);
        }
    }
    false
}

/// The whitespace that separates the words of an attribute list in a CSS
/// `~=` match: space, tab, line feed, carriage return and form feed.
pub open spec fn is_css_ws(c: char) -> bool {
    c == ' ' || c == '\t' || c == '\n' || c == '\r' || c == '\u{c}'
}

fn char_is_css_ws(c: char) -> (r: bool)
    ensures
        r == is_css_ws(c),
{
    c == ' ' || c == '\t' || c == '\n' || c == '\r' || c == '\u{c}'
}

/// Whether positions `i..j` of `s` hold one maximal whitespace-separated
/// word.
pub open spec fn word_at(s: Seq<char>, i: int, j: int) -> bool {
    &&& 0 <= i < j <= s.len()
    &&& (i == 0 || is_css_ws(s[i - 1]))
    &&& (j == s.len() || is_css_ws(s[j]))
    &&& forall|k: int| i <= k < j ==> !is_css_ws(#[trigger] s[k])
}

/// Whether `w` is one of the whitespace-separated words of `s`: the CSS
/// `[attr~="w"]` match on an attribute value.
pub open spec fn spec_has_word(s: Seq<char>, w: Seq<char>) -> bool {
    exists|i: int, j: int| word_at(s, i, j) && s.subrange(i, j) == w
}

/// Decides the CSS `~=` word match: whether `w` stands in `s` as a
/// complete whitespace-separated word.
pub fn has_word(s: &str, w: &str) -> (r: bool)
    ensures
        r == spec_has_word(s@, w@),
{
    let n = s.unicode_len();
    let mut i: usize = 0;
    while i < n
        invariant
            i <= n,
            n == s@.len(),
            i > 0 && i < n && !is_css_ws(s@[i as int]) ==> is_css_ws(s@[i - 1]),
            forall|i0: int, j0: int| word_at(s@, i0, j0) && i0 < i ==> s@.subrange(i0, j0) != w@,
        decreases n - i,
    {
        if char_is_css_ws(s.get_char(i)) {
            i += 1;
        } else {
            let start = i;
            let mut e = i;
            while e < n && !char_is_css_ws(s.get_char(e))
                invariant
                    start <= e <= n,
                    n == s@.len(),
                    forall|k: int| start <= k < e ==> !is_css_ws(#[trigger] s@[k]),
                decreases n - e,
            {
                e += 1;
            }
            proof {
                assert(e > start) by {
                    if e == start {
                        assert(e == n || is_css_ws(s@[e as int]));
                    }
                }
                assert(word_at(s@, start as int, e as int));
            }
            let tok = s.substring_char(start, e);
            if crate::text::str_eq(tok, w) {
                proof {
                    assert(s@.subrange(start as int, e as int) == w@);
                }
                return true;
            }
            proof {
                assert forall|i0: int, j0: int|
                    word_at(s@, i0, j0) && i0 < e as int implies s@.subrange(i0, j0) != w@ by {
                    if i0 >= start {
                        if i0 > start {
                            assert(is_css_ws(s@[i0 - 1]));
                            assert(false);
                        }
                        if j0 < e {
                            assert(is_css_ws(s@[j0]));
                            assert(false);
                        }
                        if j0 > e {
                            assert(e < s@.len() && is_css_ws(s@[e as int]));
                            assert(!is_css_ws(s@[e as int]));
                            assert(false);
                        }
                        assert(i0 == start && j0 == e);
                    }
                }
            }
            i = e;
        }
    }
    proof {
        if spec_has_word(s@, w@) {
            let (i0, j0) = choose|i0: int, j0: int|
                word_at(s@, i0, j0) && s@.subrange(i0, j0) == w@;
            assert(false);
        }
    }
    false
}

/// The lexicographic order on sequences of characters, by code point; the
/// order in which the serialized author list is presented and by which the
/// primary author is chosen.
pub open spec fn spec_lex_le(a: Seq<char>, b: Seq<char>) -> bool
    decreases a.len(),
{
    if a.len() == 0 {
        true
    } else if b.len() == 0 {
        false
    } else if (a[0] as u32) < (b[0] as u32) {
        true
    } else if (a[0] as u32) > (b[0] as u32) {
        false
    } else {
        spec_lex_le(a.drop_first(), b.drop_first())
    }
}

/// Compares two strings in the lexicographic order `spec_lex_le`.
pub fn str_le(a: &str, b: &str) -> (r: bool)
    ensures
        r == spec_lex_le(a@, b@),
{
    let na = a.unicode_len();
    let nb = b.unicode_len();
    let mut i: usize = 0;
    proof {
        assert(a@.skip(0) =~= a@);
        assert(b@.skip(0) =~= b@);
    }
    while i < na && i < nb
        invariant
            i <= na,
            i <= nb,
            na == a@.len(),
            nb == b@.len(),
            spec_lex_le(a@, b@) == spec_lex_le(a@.skip(i as int), b@.skip(i as int)),
        decreases na - i,
    {
        let ca = a.get_char(i) as u32;
        let cb = b.get_char(i) as u32;
        proof {
            let x = a@.skip(i as int);
            let y = b@.skip(i as int);
            assert(x[0] == a@[i as int]);
            assert(y[0] == b@[i as int]);
            assert(x.drop_first() =~= a@.skip(i as int + 1));
            assert(y.drop_first() =~= b@.skip(i as int + 1));
        }
        if ca < cb {
            return true;
        }
        if ca > cb {
            return false;
        }
        i += 1;
    }
    proof {
        let x = a@.skip(i as int);
        let y = b@.skip(i as int);
        if i == na {
            assert(x.len() == 0);
        } else {
            assert(y.len() == 0 && x.len() > 0);
        }
    }
    i == na
}

/// The lexicographic order is total.
pub proof fn lemma_lex_total(a: Seq<char>, b: Seq<char>)
    ensures
        spec_lex_le(a, b) || spec_lex_le(b, a),
    decreases a.len(),
{
    if a.len() > 0 && b.len() > 0 && a[0] as u32 == b[0] as u32 {
        lemma_lex_total(a.drop_first(), b.drop_first());
    }
}

/// The lexicographic order is transitive.
pub proof fn lemma_lex_trans(a: Seq<char>, b: Seq<char>, c: Seq<char>)
    requires
        spec_lex_le(a, b),
        spec_lex_le(b, c),
    ensures
        spec_lex_le(a, c),
    decreases a.len(),
{
    if a.len() > 0 && b.len() > 0 && c.len() > 0 {
        if a[0] as u32 == b[0] as u32 && b[0] as u32 == c[0] as u32 {
            lemma_lex_trans(a.drop_first(), b.drop_first(), c.drop_first());
        }
    }
}

} // verus!
