//! Text normalization: every extracted candidate string passes through
//! [`collapse_ws`], which collapses each run of whitespace into a single
//! ASCII space and trims both ends; the normalized-empty string is the
//! "absent" value everywhere in the resolution engine.

use vstd::prelude::*;
use vstd::string::StrSliceExecFns;
use vstd::string::StringExecFns;

verus! {

/// The Unicode `White_Space` code points, the characters that
/// `char::is_whitespace` accepts.
pub open spec fn is_ws_char(c: char) -> bool {
    let n = c as u32;
    ||| n == 0x9
    ||| n == 0xA
    ||| n == 0xB
    ||| n == 0xC
    ||| n == 0xD
    ||| n == 0x20
    ||| n == 0x85
    ||| n == 0xA0
    ||| n == 0x1680
    ||| (0x2000 <= n && n <= 0x200A)
    ||| n == 0x2028
    ||| n == 0x2029
    ||| n == 0x202F
    ||| n == 0x205F
    ||| n == 0x3000
}

/// Decides Unicode whitespace, matching `is_ws_char`.
pub fn char_is_ws(c: char) -> (r: bool)
    ensures
        r == is_ws_char(c),
{
    let n = c as u32;
    n == 0x9 || n == 0xA || n == 0xB || n == 0xC || n == 0xD || n == 0x20 || n == 0x85
        || n == 0xA0 || n == 0x1680 || (0x2000 <= n && n <= 0x200A) || n == 0x2028 || n == 0x2029
        || n == 0x202F || n == 0x205F || n == 0x3000
}

/// Relies on `String::push`: appends the given character to the end of the
/// string.
#[verifier::external_body]
pub(crate) fn push_char(s: &mut String, c: char)
    ensures
        final(s)@ == old(s)@.push(c),
{
    s.push(c);
}

/// What one input character adds to the collapsed output: a whitespace
/// character becomes one space unless the previous input character was
/// already whitespace; any other character stands for itself.
pub open spec fn ws_delta(c: char, prev_ws: bool) -> Seq<char> {
    if is_ws_char(c) {
        if prev_ws {
            Seq::empty()
        } else {
            seq![' ']
        }
    } else {
        seq![c]
    }
}

/// Whether a sequence ends in whitespace (false when empty); this is the
/// "previous character was whitespace" state after reading the sequence.
pub open spec fn ends_ws(s: Seq<char>) -> bool {
    s.len() > 0 && is_ws_char(s.last())
}

/// The whitespace-collapsed form of a sequence: every maximal run of
/// whitespace becomes a single ASCII space; other characters are kept.
pub open spec fn collapsed(s: Seq<char>) -> Seq<char>
    decreases s.len(),
{
    if s.len() == 0 {
        Seq::empty()
    } else {
        collapsed(s.drop_last()) + ws_delta(s.last(), ends_ws(s.drop_last()))
    }
}

/// Removes the single space that a collapsed sequence may carry at either
/// end.
pub open spec fn strip_sp(t: Seq<char>) -> Seq<char> {
    let u = if t.len() > 0 && t[0] == ' ' {
        t.drop_first()
    } else {
        t
    };
    if u.len() > 0 && u.last() == ' ' {
        u.drop_last()
    } else {
        u
    }
}

/// The normalized form of a string: whitespace runs collapsed to single
/// spaces, then both ends trimmed. The empty result is the "absent" value.
pub open spec fn spec_normalize(s: Seq<char>) -> Seq<char> {
    strip_sp(collapsed(s))
}

/// Well-formedness of the collapsed form: its only whitespace character is
/// the ASCII space, two spaces are never adjacent, its last character is a
/// space only where the input ended in whitespace, and where the input ended
/// in a non-whitespace character the output ends in that character.
proof fn lemma_collapsed_wf(s: Seq<char>)
    ensures
        forall|i: int|
            0 <= i < collapsed(s).len() && is_ws_char(#[trigger] collapsed(s)[i]) ==> collapsed(
                s,
            )[i] == ' ',
        forall|i: int|
            0 <= i && i + 1 < collapsed(s).len() && #[trigger] collapsed(s)[i] == ' ' ==> collapsed(
                s,
            )[i + 1] != ' ',
        !ends_ws(s) && s.len() > 0 && collapsed(s).len() > 0 ==> collapsed(s).last() == s.last(),
        ends_ws(s) ==> collapsed(s).len() > 0 && collapsed(s).last() == ' ',
        collapsed(s).len() == 0 ==> s.len() == 0 || ends_ws(s),
    decreases s.len(),
{
    if s.len() == 0 {
    } else {
        let p = s.drop_last();
        let c = s.last();
        lemma_collapsed_wf(p);
        let t = collapsed(p);
        let d = ws_delta(c, ends_ws(p));
        assert(collapsed(s) == t + d);
        if is_ws_char(c) {
            if ends_ws(p) {
                assert(t + d =~= t);
            } else {
                if t.len() > 0 {
                    assert(!is_ws_char(t.last()));
                }
                assert((t + d).last() == ' ');
            }
        } else {
            assert((t + d).last() == c);
            if t.len() > 0 && ends_ws(p) {
                assert(t.last() == ' ');
            }
        }
    }
}

/// The normalized form of a string has no whitespace at either end and no
/// two adjacent whitespace characters anywhere.
pub proof fn lemma_normalize_wf(s: Seq<char>)
    ensures
        spec_normalize(s).len() > 0 ==> !is_ws_char(spec_normalize(s)[0]),
        spec_normalize(s).len() > 0 ==> !is_ws_char(spec_normalize(s).last()),
        forall|i: int|
            0 <= i && i + 1 < spec_normalize(s).len() ==> !(is_ws_char(
                #[trigger] spec_normalize(s)[i],
            ) && is_ws_char(spec_normalize(s)[i + 1])),
{
    lemma_collapsed_wf(s);
    let t = collapsed(s);
    let u = if t.len() > 0 && t[0] == ' ' {
        t.drop_first()
    } else {
        t
    };
    let r = spec_normalize(s);
    assert forall|i: int| 0 <= i < u.len() && is_ws_char(#[trigger] u[i]) implies u[i] == ' ' by {
        if t.len() > 0 && t[0] == ' ' {
            assert(u[i] == t[i + 1]);
        }
    }
    assert forall|i: int| 0 <= i && i + 1 < u.len() && #[trigger] u[i] == ' ' implies u[i + 1]
        != ' ' by {
        if t.len() > 0 && t[0] == ' ' {
            assert(u[i] == t[i + 1] && u[i + 1] == t[i + 2]);
        }
    }
    if u.len() > 0 && u[0] == ' ' {
        assert(t.len() > 0 && t[0] == ' ' && u[0] == t[1]);
        assert(false);
    }
    assert forall|i: int| 0 <= i < r.len() && is_ws_char(#[trigger] r[i]) implies r[i] == ' ' by {
        assert(r[i] == u[i]);
    }
    if r.len() > 0 {
        if is_ws_char(r[0]) {
            assert(r[0] == u[0]);
        }
        if is_ws_char(r.last()) {
            let j = r.len() - 1;
            assert(r[j] == u[j]);
            assert(u[j] == ' ');
            if u.len() > 0 && u.last() == ' ' {
                assert(u[j] == u[u.len() - 2]);
                assert(u[j + 1] != ' ');
            }
            assert(false);
        }
    }
}

/// Collapses every run of whitespace (any Unicode whitespace, newlines
/// included) into a single ASCII space and trims both ends.
pub fn collapse_ws(s: &str) -> (r: String)
    ensures
        r@ == spec_normalize(s@),
{
    let n = s.unicode_len();
    let mut out = String::new();
    let mut was: bool = false;
    let mut i: usize = 0;
    while i < n
        invariant
            i <= n,
            n == s@.len(),
            out@ == collapsed(s@.take(i as int)),
            was == ends_ws(s@.take(i as int)),
        decreases n - i,
    {
        let c = s.get_char(i);
        proof {
            let p1 = s@.take(i as int + 1);
            assert(p1.drop_last() =~= s@.take(i as int));
            assert(p1.last() == s@[i as int]);
        }
        if char_is_ws(c) {
            if !was {
                push_char(&mut out, ' ');
                proof {
                    assert(out@ =~= collapsed(s@.take(i as int)) + ws_delta(
                        c,
                        ends_ws(s@.take(i as int)),
                    ));
                }
            } else {
                proof {
                    assert(out@ =~= collapsed(s@.take(i as int)) + ws_delta(
                        c,
                        ends_ws(s@.take(i as int)),
                    ));
                }
            }
            was = true;
        } else {
            push_char(&mut out, c);
            proof {
                assert(out@ =~= collapsed(s@.take(i as int)) + ws_delta(
                    c,
                    ends_ws(s@.take(i as int)),
                ));
            }
            was = false;
        }
        i += 1;
    }
    proof {
        assert(s@.take(n as int) =~= s@);
    }
    let m = out.unicode_len();
    let start: usize = if m > 0 && out.as_str().get_char(0) == ' ' {
        1
    } else {
        0
    };
    let end: usize = if m > start && out.as_str().get_char(m - 1) == ' ' {
        m - 1
    } else {
        m
    };
    let r = String::from_str(out.as_str().substring_char(start, end));
    proof {
        let t = out@;
        let u = if t.len() > 0 && t[0] == ' ' {
            t.drop_first()
        } else {
            t
        };
        if start == 1 {
            assert(u =~= t.subrange(1, t.len() as int));
        }
        if u.len() > 0 && u.last() == ' ' {
            assert(end == m - 1);
            assert(r@ =~= u.drop_last());
        } else {
            assert(end == m);
            assert(r@ =~= u);
        }
    }
    r
}

/// A sequence with its leading whitespace removed.
pub open spec fn ltrim(s: Seq<char>) -> Seq<char>
    decreases s.len(),
{
    if s.len() > 0 && is_ws_char(s[0]) {
        ltrim(s.drop_first())
    } else {
        s
    }
}

/// A sequence with its trailing whitespace removed.
pub open spec fn rtrim(s: Seq<char>) -> Seq<char>
    decreases s.len(),
{
    if s.len() > 0 && is_ws_char(s.last()) {
        rtrim(s.drop_last())
    } else {
        s
    }
}

/// A sequence with whitespace removed from both ends.
pub open spec fn spec_trim(s: Seq<char>) -> Seq<char> {
    rtrim(ltrim(s))
}

proof fn lemma_ltrim_at(s: Seq<char>, a: int)
    requires
        0 <= a <= s.len(),
        forall|j: int| 0 <= j < a ==> is_ws_char(s[j]),
        a < s.len() ==> !is_ws_char(s[a]),
    ensures
        ltrim(s) == s.subrange(a, s.len() as int),
    decreases a,
{
    if a == 0 {
        assert(s.subrange(0, s.len() as int) =~= s);
    } else {
        let d = s.drop_first();
        lemma_ltrim_at(d, a - 1);
        assert(d.subrange(a - 1, d.len() as int) =~= s.subrange(a, s.len() as int));
    }
}

proof fn lemma_rtrim_at(s: Seq<char>, b: int)
    requires
        0 <= b <= s.len(),
        forall|j: int| b <= j < s.len() ==> is_ws_char(s[j]),
        b > 0 ==> !is_ws_char(s[b - 1]),
    ensures
        rtrim(s) == s.subrange(0, b),
    decreases s.len() - b,
{
    if b == s.len() {
        assert(s.subrange(0, s.len() as int) =~= s);
    } else {
        let d = s.drop_last();
        lemma_rtrim_at(d, b);
        assert(d.subrange(0, b) =~= s.subrange(0, b));
    }
}

/// Removes leading and trailing whitespace, as `str::trim` does.
pub fn trim_str<'a>(s: &'a str) -> (r: &'a str)
    ensures
        r@ == spec_trim(s@),
{
    let n = s.unicode_len();
    let mut a: usize = 0;
    while a < n && char_is_ws(s.get_char(a))
        invariant
            a <= n,
            n == s@.len(),
            forall|j: int| 0 <= j < a ==> is_ws_char(s@[j]),
        decreases n - a,
    {
        a += 1;
    }
    proof {
        lemma_ltrim_at(s@, a as int);
    }
    if a == n {
        proof {
            assert(ltrim(s@) =~= Seq::<char>::empty());
        }
        let r = s.substring_char(n, n);
        proof {
            assert(r@ =~= Seq::<char>::empty());
        }
        return r;
    }
    let mut b: usize = n;
    while b > a && char_is_ws(s.get_char(b - 1))
        invariant
            a <= b <= n,
            n == s@.len(),
            a < n,
            !is_ws_char(s@[a as int]),
            forall|j: int| b <= j < n ==> is_ws_char(s@[j]),
        decreases b,
    {
        b -= 1;
    }
    proof {
        let t = s@.subrange(a as int, n as int);
        assert(b > a) by {
            if b == a {
                assert(is_ws_char(s@[a as int]));
            }
        }
        lemma_rtrim_at(t, b - a);
        assert(t.subrange(0, b - a) =~= s@.subrange(a as int, b as int));
    }
    s.substring_char(a, b)
}

/// The trimmed form of a string with a single leading `@` sign removed
/// where one stands, the shape a Twitter handle is reduced to.
pub open spec fn spec_trim_at(s: Seq<char>) -> Seq<char> {
    let t = spec_trim(s);
    if t.len() > 0 && t[0] == '@' {
        t.drop_first()
    } else {
        t
    }
}

/// Trims a string and strips a leading `@` sign; turns a Twitter
/// `@handle` into the bare handle.
pub fn trim_at(s: &str) -> (r: String)
    ensures
        r@ == spec_trim_at(s@),
{
    let t = trim_str(s);
    let n = t.unicode_len();
    if n > 0 && t.get_char(0) == '@' {
        let r = String::from_str(t.substring_char(1, n));
        proof {
            assert(r@ =~= t@.drop_first());
        }
        r
    } else {
        String::from_str(t)
    }
}

/// The views of a sequence of strings.
pub open spec fn views_of(v: Seq<String>) -> Seq<Seq<char>> {
    v.map_values(|s: String| s@)
}

/// What [`push_clean`] leaves in the accumulator: the trimmed string is
/// appended when it is non-empty, else nothing changes.
pub open spec fn spec_push_clean(acc: Seq<Seq<char>>, s: Seq<char>) -> Seq<Seq<char>> {
    if spec_trim(s).len() > 0 {
        acc.push(spec_trim(s))
    } else {
        acc
    }
}

/// Trims a candidate string and appends it to the list when it is
/// non-empty.
pub fn push_clean(s: &str, out: &mut Vec<String>)
    ensures
        views_of(final(out)@) == spec_push_clean(views_of(old(out)@), s@),
{
    let u = trim_str(s);
    if u.unicode_len() > 0 {
        let owned = String::from_str(u);
        out.push(owned);
        proof {
            assert(views_of(final(out)@) =~= spec_push_clean(views_of(old(out)@), s@));
        }
    }
}

/// Whether two string slices hold the same characters.
pub fn str_eq(a: &str, b: &str) -> (r: bool)
    ensures
        r == (a@ == b@),
{
    let na = a.unicode_len();
    let nb = b.unicode_len();
    if na != nb {
        return false;
    }
    let mut i: usize = 0;
    while i < na
        invariant
            i <= na,
            na == a@.len(),
            na == b@.len(),
            forall|j: int| 0 <= j < i ==> a@[j] == b@[j],
        decreases na - i,
    {
        if a.get_char(i) != b.get_char(i) {
            return false;
        }
        i += 1;
    }
    proof {
        assert(a@ =~= b@);
    }
    true
}

} // verus!
