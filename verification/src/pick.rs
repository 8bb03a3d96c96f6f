//! Candidate selection over query results: "first matching element's
//! normalized text", "first non-empty attribute value across all
//! matches", "all non-empty values as a set", and their meta-tag
//! variants. Every extracted value passes through normalization here,
//! and the normalized-empty string counts as absent.

use vstd::prelude::*;
use vstd::string::StrSliceExecFns;
use crate::doc::{QElem, ScopedElem, elems_wf};
use crate::text::{spec_normalize, collapse_ws, spec_trim_at, trim_at};
use crate::strops::{eq_ci, str_eq_ci, spec_has_word, has_word};
use crate::urls::opt_view;
use crate::authors::AuthorSet;

verus! {

/// The first match's normalized text, where it is non-empty.
pub open spec fn spec_first_text(es: Seq<QElem>) -> Option<Seq<char>> {
    if es.len() > 0 && spec_normalize(es[0].text@).len() > 0 {
        Some(spec_normalize(es[0].text@))
    } else {
        None
    }
}

/// The first matching element's normalized text content.
pub fn first_text(es: &Vec<QElem>) -> (r: Option<String>)
    ensures
        opt_view(r) == spec_first_text(es@),
{
    if es.len() > 0 {
        let t = collapse_ws(es[0].text.as_str());
        if t.as_str().unicode_len() > 0 {
            return Some(t);
        }
    }
    None
}

/// The first non-empty normalized value of attribute slot `k` across the
/// matches, in document order.
pub open spec fn spec_first_attr(es: Seq<QElem>, k: int) -> Option<Seq<char>>
    decreases es.len(),
{
    if es.len() == 0 {
        None
    } else {
        match es[0].attrs@[k] {
            Some(a) => if spec_normalize(a@).len() > 0 {
                Some(spec_normalize(a@))
            } else {
                spec_first_attr(es.drop_first(), k)
            },
            None => spec_first_attr(es.drop_first(), k),
        }
    }
}

/// The first non-empty normalized value of one attribute across all
/// matches.
pub fn first_attr(es: &Vec<QElem>, k: usize, n: usize) -> (r: Option<String>)
    requires
        elems_wf(es@, n as int),
        k < n,
    ensures
        opt_view(r) == spec_first_attr(es@, k as int),
{
    let len = es.len();
    let mut i: usize = 0;
    proof {
        assert(es@.skip(0) =~= es@);
    }
    while i < len
        invariant
            i <= len,
            len == es@.len(),
            elems_wf(es@, n as int),
            k < n,
            spec_first_attr(es@, k as int) == spec_first_attr(es@.skip(i as int), k as int),
        decreases len - i,
    {
        proof {
            let t = es@.skip(i as int);
            assert(t[0] == es@[i as int]);
            assert(t.drop_first() =~= es@.skip(i as int + 1));
        }
        match &es[i].attrs[k] {
            Some(a) => {
                let v = collapse_ws(a.as_str());
                if v.as_str().unicode_len() > 0 {
                    return Some(v);
                }
            },
            None => {},
        }
        i += 1;
    }
    None
}

/// Whether a meta element's key slot holds exactly the given key, the
/// CSS `[attr="key"]` match.
pub open spec fn meta_match(e: QElem, ki: int, key: Seq<char>) -> bool {
    match e.attrs@[ki] {
        Some(v) => v@ == key,
        None => false,
    }
}

/// The first non-empty normalized `content` among the metas whose key
/// slot (`name` or `property`) equals `key`.
pub open spec fn spec_first_meta(es: Seq<QElem>, ki: int, key: Seq<char>) -> Option<Seq<char>>
    decreases es.len(),
{
    if es.len() == 0 {
        None
    } else if meta_match(es[0], ki, key) && content_norm(es[0]).len() > 0 {
        Some(content_norm(es[0]))
    } else {
        spec_first_meta(es.drop_first(), ki, key)
    }
}

/// The normalized `content` attribute of a meta element, empty where
/// absent.
pub open spec fn content_norm(e: QElem) -> Seq<char> {
    match e.attrs@[2] {
        Some(c) => spec_normalize(c@),
        None => Seq::empty(),
    }
}

/// The first non-empty normalized content of a meta tag matched by key.
pub fn first_meta(es: &Vec<QElem>, ki: usize, key: &str) -> (r: Option<String>)
    requires
        elems_wf(es@, 3),
        ki < 2,
    ensures
        opt_view(r) == spec_first_meta(es@, ki as int, key@),
{
    let len = es.len();
    let mut i: usize = 0;
    proof {
        assert(es@.skip(0) =~= es@);
    }
    while i < len
        invariant
            i <= len,
            len == es@.len(),
            elems_wf(es@, 3),
            ki < 2,
            spec_first_meta(es@, ki as int, key@) == spec_first_meta(
                es@.skip(i as int),
                ki as int,
                key@,
            ),
        decreases len - i,
    {
        proof {
            let t = es@.skip(i as int);
            assert(t[0] == es@[i as int]);
            assert(t.drop_first() =~= es@.skip(i as int + 1));
        }
        let matched = match &es[i].attrs[ki] {
            Some(v) => crate::text::str_eq(v.as_str(), key),
            None => false,
        };
        if matched {
            match &es[i].attrs[2] {
                Some(c) => {
                    let v = collapse_ws(c.as_str());
                    if v.as_str().unicode_len() > 0 {
                        return Some(v);
                    }
                },
                None => {},
            }
        }
        i += 1;
    }
    None
}

/// Whether a meta name equals one of the given names up to ASCII case.
pub open spec fn name_in_ci(v: Seq<char>, names: Seq<Seq<char>>) -> bool {
    exists|k: int| 0 <= k < names.len() && eq_ci(v, #[trigger] names[k])
}

/// Whether a meta element's `name` matches one of the names up to ASCII
/// case.
pub open spec fn meta_match_ci(e: QElem, names: Seq<Seq<char>>) -> bool {
    match e.attrs@[0] {
        Some(v) => name_in_ci(v@, names),
        None => false,
    }
}

/// The first non-empty normalized content among the metas whose `name`
/// matches one of the given names up to ASCII case; the Dublin Core
/// lookups work this way.
pub open spec fn spec_first_meta_ci(es: Seq<QElem>, names: Seq<Seq<char>>) -> Option<Seq<char>>
    decreases es.len(),
{
    if es.len() == 0 {
        None
    } else if meta_match_ci(es[0], names) && content_norm(es[0]).len() > 0 {
        Some(content_norm(es[0]))
    } else {
        spec_first_meta_ci(es.drop_first(), names)
    }
}

fn match_ci(v: &str, names: &Vec<String>) -> (r: bool)
    ensures
        r == name_in_ci(v@, crate::text::views_of(names@)),
{
    let len = names.len();
    let mut i: usize = 0;
    while i < len
        invariant
            i <= len,
            len == names@.len(),
            forall|k: int|
                0 <= k < i ==> !eq_ci(v@, #[trigger] crate::text::views_of(names@)[k]),
        decreases len - i,
    {
        if str_eq_ci(v, names[i].as_str()) {
            proof {
                assert(eq_ci(v@, crate::text::views_of(names@)[i as int]));
            }
            return true;
        }
        i += 1;
    }
    proof {
        if name_in_ci(v@, crate::text::views_of(names@)) {
            let k = choose|k: int|
                0 <= k < crate::text::views_of(names@).len() && eq_ci(
                    v@,
                    #[trigger] crate::text::views_of(names@)[k],
                );
            assert(false);
        }
    }
    false
}

/// The first non-empty normalized content of a meta tag whose name
/// matches one of the names up to ASCII case.
pub fn first_meta_ci(es: &Vec<QElem>, names: &Vec<String>) -> (r: Option<String>)
    requires
        elems_wf(es@, 3),
    ensures
        opt_view(r) == spec_first_meta_ci(es@, crate::text::views_of(names@)),
{
    let len = es.len();
    let mut i: usize = 0;
    proof {
        assert(es@.skip(0) =~= es@);
    }
    while i < len
        invariant
            i <= len,
            len == es@.len(),
            elems_wf(es@, 3),
            spec_first_meta_ci(es@, crate::text::views_of(names@)) == spec_first_meta_ci(
                es@.skip(i as int),
                crate::text::views_of(names@),
            ),
        decreases len - i,
    {
        proof {
            let t = es@.skip(i as int);
            assert(t[0] == es@[i as int]);
            assert(t.drop_first() =~= es@.skip(i as int + 1));
        }
        let matched = match &es[i].attrs[0] {
            Some(v) => match_ci(v.as_str(), names),
            None => false,
        };
        if matched {
            match &es[i].attrs[2] {
                Some(c) => {
                    let v = collapse_ws(c.as_str());
                    if v.as_str().unicode_len() > 0 {
                        return Some(v);
                    }
                },
                None => {},
            }
        }
        i += 1;
    }
    None
}

/// The normalized non-empty strings of a list, as a set.
pub open spec fn strs_set(ss: Seq<String>) -> Set<Seq<char>>
    decreases ss.len(),
{
    if ss.len() == 0 {
        Set::empty()
    } else {
        let part = if spec_normalize(ss[0]@).len() > 0 {
            set![spec_normalize(ss[0]@)]
        } else {
            Set::<Seq<char>>::empty()
        };
        part.union(strs_set(ss.drop_first()))
    }
}

/// Inserts the normalized non-empty strings of a list into the set.
pub fn collect_strs(ss: &Vec<String>, out: &mut AuthorSet)
    requires
        old(out).wf(),
    ensures
        final(out).wf(),
        final(out).names() == old(out).names().union(strs_set(ss@)),
{
    let ghost base = out.names();
    let len = ss.len();
    let mut i: usize = 0;
    proof {
        assert(ss@.skip(0) =~= ss@);
    }
    while i < len
        invariant
            i <= len,
            len == ss@.len(),
            out.wf(),
            out.names().union(strs_set(ss@.skip(i as int))) == base.union(strs_set(ss@)),
        decreases len - i,
    {
        proof {
            let t = ss@.skip(i as int);
            assert(t[0] == ss@[i as int]);
            assert(t.drop_first() =~= ss@.skip(i as int + 1));
        }
        let v = collapse_ws(ss[i].as_str());
        if v.as_str().unicode_len() > 0 {
            out.insert(v);
        }
        proof {
            assert(out.names().union(strs_set(ss@.skip(i as int + 1))) =~= base.union(
                strs_set(ss@),
            ));
        }
        i += 1;
    }
    proof {
        assert(ss@.skip(len as int) =~= Seq::<String>::empty());
        assert(out.names() =~= out.names().union(strs_set(ss@.skip(len as int))));
        assert(out.names() =~= base.union(strs_set(ss@)));
    }
}

/// The normalized non-empty texts of the matches, as a set.
pub open spec fn text_set(es: Seq<QElem>) -> Set<Seq<char>>
    decreases es.len(),
{
    if es.len() == 0 {
        Set::empty()
    } else {
        let part = if spec_normalize(es[0].text@).len() > 0 {
            set![spec_normalize(es[0].text@)]
        } else {
            Set::<Seq<char>>::empty()
        };
        part.union(text_set(es.drop_first()))
    }
}

/// Inserts the normalized non-empty text of every match into the set.
pub fn collect_texts(es: &Vec<QElem>, out: &mut AuthorSet)
    requires
        old(out).wf(),
    ensures
        final(out).wf(),
        final(out).names() == old(out).names().union(text_set(es@)),
{
    let ghost base = out.names();
    let len = es.len();
    let mut i: usize = 0;
    proof {
        assert(es@.skip(0) =~= es@);
    }
    while i < len
        invariant
            i <= len,
            len == es@.len(),
            out.wf(),
            out.names().union(text_set(es@.skip(i as int))) == base.union(text_set(es@)),
        decreases len - i,
    {
        proof {
            let t = es@.skip(i as int);
            assert(t[0] == es@[i as int]);
            assert(t.drop_first() =~= es@.skip(i as int + 1));
        }
        let v = collapse_ws(es[i].text.as_str());
        if v.as_str().unicode_len() > 0 {
            out.insert(v);
        }
        proof {
            assert(out.names().union(text_set(es@.skip(i as int + 1))) =~= base.union(
                text_set(es@),
            ));
        }
        i += 1;
    }
    proof {
        assert(es@.skip(len as int) =~= Seq::<QElem>::empty());
        assert(out.names() =~= out.names().union(text_set(es@.skip(len as int))));
        assert(out.names() =~= base.union(text_set(es@)));
    }
}

/// The normalized non-empty values of attribute slot `k` across the
/// matches, as a set.
pub open spec fn attr_set(es: Seq<QElem>, k: int) -> Set<Seq<char>>
    decreases es.len(),
{
    if es.len() == 0 {
        Set::empty()
    } else {
        let part = match es[0].attrs@[k] {
            Some(a) => if spec_normalize(a@).len() > 0 {
                set![spec_normalize(a@)]
            } else {
                Set::<Seq<char>>::empty()
            },
            None => Set::<Seq<char>>::empty(),
        };
        part.union(attr_set(es.drop_first(), k))
    }
}

/// Inserts the normalized non-empty values of one attribute across all
/// matches into the set.
pub fn collect_attrs(es: &Vec<QElem>, k: usize, n: usize, out: &mut AuthorSet)
    requires
        old(out).wf(),
        elems_wf(es@, n as int),
        k < n,
    ensures
        final(out).wf(),
        final(out).names() == old(out).names().union(attr_set(es@, k as int)),
{
    let ghost base = out.names();
    let len = es.len();
    let mut i: usize = 0;
    proof {
        assert(es@.skip(0) =~= es@);
    }
    while i < len
        invariant
            i <= len,
            len == es@.len(),
            elems_wf(es@, n as int),
            k < n,
            out.wf(),
            out.names().union(attr_set(es@.skip(i as int), k as int)) == base.union(
                attr_set(es@, k as int),
            ),
        decreases len - i,
    {
        proof {
            let t = es@.skip(i as int);
            assert(t[0] == es@[i as int]);
            assert(t.drop_first() =~= es@.skip(i as int + 1));
        }
        match &es[i].attrs[k] {
            Some(a) => {
                let v = collapse_ws(a.as_str());
                if v.as_str().unicode_len() > 0 {
                    out.insert(v);
                }
            },
            None => {},
        }
        proof {
            assert(out.names().union(attr_set(es@.skip(i as int + 1), k as int)) =~= base.union(
                attr_set(es@, k as int),
            ));
        }
        i += 1;
    }
    proof {
        assert(es@.skip(len as int) =~= Seq::<QElem>::empty());
        assert(out.names() =~= out.names().union(attr_set(es@.skip(len as int), k as int)));
        assert(out.names() =~= base.union(attr_set(es@, k as int)));
    }
}

/// The normalized non-empty contents of the metas matched by key, as a
/// set, optionally with leading `@` signs stripped from each value (the
/// Twitter handle form).
pub open spec fn meta_set(es: Seq<QElem>, ki: int, key: Seq<char>, strip_at: bool) -> Set<
    Seq<char>,
>
    decreases es.len(),
{
    if es.len() == 0 {
        Set::empty()
    } else {
        let part = if meta_match(es[0], ki, key) && content_norm(es[0]).len() > 0 {
            if strip_at {
                set![spec_trim_at(content_norm(es[0]))]
            } else {
                set![content_norm(es[0])]
            }
        } else {
            Set::<Seq<char>>::empty()
        };
        part.union(meta_set(es.drop_first(), ki, key, strip_at))
    }
}

/// Inserts the normalized non-empty contents of the metas matched by
/// key, stripping each value's leading `@` signs where asked.
pub fn collect_meta(es: &Vec<QElem>, ki: usize, key: &str, strip_at: bool, out: &mut AuthorSet)
    requires
        old(out).wf(),
        elems_wf(es@, 3),
        ki < 2,
    ensures
        final(out).wf(),
        final(out).names() == old(out).names().union(meta_set(es@, ki as int, key@, strip_at)),
{
    let ghost base = out.names();
    let len = es.len();
    let mut i: usize = 0;
    proof {
        assert(es@.skip(0) =~= es@);
    }
    while i < len
        invariant
            i <= len,
            len == es@.len(),
            elems_wf(es@, 3),
            ki < 2,
            out.wf(),
            out.names().union(meta_set(es@.skip(i as int), ki as int, key@, strip_at))
                == base.union(meta_set(es@, ki as int, key@, strip_at)),
        decreases len - i,
    {
        proof {
            let t = es@.skip(i as int);
            assert(t[0] == es@[i as int]);
            assert(t.drop_first() =~= es@.skip(i as int + 1));
        }
        let matched = match &es[i].attrs[ki] {
            Some(v) => crate::text::str_eq(v.as_str(), key),
            None => false,
        };
        if matched {
            match &es[i].attrs[2] {
                Some(c) => {
                    let v = collapse_ws(c.as_str());
                    if v.as_str().unicode_len() > 0 {
                        if strip_at {
                            out.insert(trim_at(v.as_str()));
                        } else {
                            out.insert(v);
                        }
                    }
                },
                None => {},
            }
        }
        proof {
            assert(out.names().union(meta_set(es@.skip(i as int + 1), ki as int, key@, strip_at))
                =~= base.union(meta_set(es@, ki as int, key@, strip_at)));
        }
        i += 1;
    }
    proof {
        assert(es@.skip(len as int) =~= Seq::<QElem>::empty());
        assert(out.names() =~= out.names().union(
            meta_set(es@.skip(len as int), ki as int, key@, strip_at),
        ));
        assert(out.names() =~= base.union(meta_set(es@, ki as int, key@, strip_at)));
    }
}

/// The normalized non-empty contents of the metas whose `name` matches
/// one of the names up to ASCII case, as a set.
pub open spec fn meta_set_ci(es: Seq<QElem>, names: Seq<Seq<char>>) -> Set<Seq<char>>
    decreases es.len(),
{
    if es.len() == 0 {
        Set::empty()
    } else {
        let part = if meta_match_ci(es[0], names) && content_norm(es[0]).len() > 0 {
            set![content_norm(es[0])]
        } else {
            Set::<Seq<char>>::empty()
        };
        part.union(meta_set_ci(es.drop_first(), names))
    }
}

/// Inserts the normalized non-empty contents of the metas whose `name`
/// matches one of the names up to ASCII case.
pub fn collect_meta_ci(es: &Vec<QElem>, names: &Vec<String>, out: &mut AuthorSet)
    requires
        old(out).wf(),
        elems_wf(es@, 3),
    ensures
        final(out).wf(),
        final(out).names() == old(out).names().union(
            meta_set_ci(es@, crate::text::views_of(names@)),
        ),
{
    let ghost base = out.names();
    let ghost gnames = crate::text::views_of(names@);
    let len = es.len();
    let mut i: usize = 0;
    proof {
        assert(es@.skip(0) =~= es@);
    }
    while i < len
        invariant
            i <= len,
            len == es@.len(),
            elems_wf(es@, 3),
            gnames == crate::text::views_of(names@),
            out.wf(),
            out.names().union(meta_set_ci(es@.skip(i as int), gnames)) == base.union(
                meta_set_ci(es@, gnames),
            ),
        decreases len - i,
    {
        proof {
            let t = es@.skip(i as int);
            assert(t[0] == es@[i as int]);
            assert(t.drop_first() =~= es@.skip(i as int + 1));
        }
        let matched = match &es[i].attrs[0] {
            Some(v) => match_ci(v.as_str(), names),
            None => false,
        };
        if matched {
            match &es[i].attrs[2] {
                Some(c) => {
                    let v = collapse_ws(c.as_str());
                    if v.as_str().unicode_len() > 0 {
                        out.insert(v);
                    }
                },
                None => {},
            }
        }
        proof {
            assert(out.names().union(meta_set_ci(es@.skip(i as int + 1), gnames)) =~= base.union(
                meta_set_ci(es@, gnames),
            ));
        }
        i += 1;
    }
    proof {
        assert(es@.skip(len as int) =~= Seq::<QElem>::empty());
        assert(out.names() =~= out.names().union(meta_set_ci(es@.skip(len as int), gnames)));
        assert(out.names() =~= base.union(meta_set_ci(es@, gnames)));
    }
}

/// What one `rel~="author"` link or anchor contributes: its normalized
/// text, or failing that its `title` attribute.
pub open spec fn link_author_part(e: QElem, title_ki: int) -> Set<Seq<char>> {
    let is_author = match e.attrs@[0] {
        Some(r) => spec_has_word(r@, "author"@),
        None => false,
    };
    if is_author {
        if spec_normalize(e.text@).len() > 0 {
            set![spec_normalize(e.text@)]
        } else {
            match e.attrs@[title_ki] {
                Some(t) => if spec_normalize(t@).len() > 0 {
                    set![spec_normalize(t@)]
                } else {
                    Set::<Seq<char>>::empty()
                },
                None => Set::<Seq<char>>::empty(),
            }
        }
    } else {
        Set::<Seq<char>>::empty()
    }
}

/// The names contributed by every `rel~="author"` element of a list.
pub open spec fn link_author_set(es: Seq<QElem>, title_ki: int) -> Set<Seq<char>>
    decreases es.len(),
{
    if es.len() == 0 {
        Set::empty()
    } else {
        link_author_part(es[0], title_ki).union(link_author_set(es.drop_first(), title_ki))
    }
}

/// Inserts the author names carried by the `rel~="author"` elements of
/// a list: each one's text, or failing that its `title` attribute.
pub fn collect_link_authors(es: &Vec<QElem>, title_ki: usize, n: usize, out: &mut AuthorSet)
    requires
        old(out).wf(),
        elems_wf(es@, n as int),
        0 < n,
        title_ki < n,
    ensures
        final(out).wf(),
        final(out).names() == old(out).names().union(link_author_set(es@, title_ki as int)),
{
    let ghost base = out.names();
    let len = es.len();
    let mut i: usize = 0;
    proof {
        assert(es@.skip(0) =~= es@);
    }
    while i < len
        invariant
            i <= len,
            len == es@.len(),
            elems_wf(es@, n as int),
            0 < n,
            title_ki < n,
            out.wf(),
            out.names().union(link_author_set(es@.skip(i as int), title_ki as int)) == base.union(
                link_author_set(es@, title_ki as int),
            ),
        decreases len - i,
    {
        proof {
            let t = es@.skip(i as int);
            assert(t[0] == es@[i as int]);
            assert(t.drop_first() =~= es@.skip(i as int + 1));
        }
        let is_author = match &es[i].attrs[0] {
            Some(r) => has_word(r.as_str(), "author"),
            None => false,
        };
        if is_author {
            let v = collapse_ws(es[i].text.as_str());
            if v.as_str().unicode_len() > 0 {
                out.insert(v);
            } else {
                match &es[i].attrs[title_ki] {
                    Some(t) => {
                        let w = collapse_ws(t.as_str());
                        if w.as_str().unicode_len() > 0 {
                            out.insert(w);
                        }
                    },
                    None => {},
                }
            }
        }
        proof {
            assert(out.names().union(link_author_set(es@.skip(i as int + 1), title_ki as int))
                =~= base.union(link_author_set(es@, title_ki as int)));
        }
        i += 1;
    }
    proof {
        assert(es@.skip(len as int) =~= Seq::<QElem>::empty());
        assert(out.names() =~= out.names().union(
            link_author_set(es@.skip(len as int), title_ki as int),
        ));
        assert(out.names() =~= base.union(link_author_set(es@, title_ki as int)));
    }
}

/// What one Microdata author element contributes: its own `content`
/// attribute, its text, and its inner name elements' contents and
/// texts.
pub open spec fn microdata_part(e: ScopedElem) -> Set<Seq<char>> {
    let own_content = match e.content {
        Some(c) => if spec_normalize(c@).len() > 0 {
            set![spec_normalize(c@)]
        } else {
            Set::<Seq<char>>::empty()
        },
        None => Set::<Seq<char>>::empty(),
    };
    let own_text = if spec_normalize(e.text@).len() > 0 {
        set![spec_normalize(e.text@)]
    } else {
        Set::<Seq<char>>::empty()
    };
    own_content.union(own_text).union(strs_set(e.inner_contents@)).union(
        strs_set(e.inner_texts@),
    )
}

/// The names contributed by every Microdata author element.
pub open spec fn microdata_set(ss: Seq<ScopedElem>) -> Set<Seq<char>>
    decreases ss.len(),
{
    if ss.len() == 0 {
        Set::empty()
    } else {
        microdata_part(ss[0]).union(microdata_set(ss.drop_first()))
    }
}

/// Inserts everything the Microdata author elements carry: their
/// `content` attributes, their texts, and their inner name elements'
/// contents and texts.
pub fn collect_microdata(ss: &Vec<ScopedElem>, out: &mut AuthorSet)
    requires
        old(out).wf(),
    ensures
        final(out).wf(),
        final(out).names() == old(out).names().union(microdata_set(ss@)),
{
    let ghost base = out.names();
    let len = ss.len();
    let mut i: usize = 0;
    proof {
        assert(ss@.skip(0) =~= ss@);
    }
    while i < len
        invariant
            i <= len,
            len == ss@.len(),
            out.wf(),
            out.names().union(microdata_set(ss@.skip(i as int))) == base.union(microdata_set(ss@)),
        decreases len - i,
    {
        proof {
            let t = ss@.skip(i as int);
            assert(t[0] == ss@[i as int]);
            assert(t.drop_first() =~= ss@.skip(i as int + 1));
        }
        match &ss[i].content {
            Some(c) => {
                let v = collapse_ws(c.as_str());
                if v.as_str().unicode_len() > 0 {
                    out.insert(v);
                }
            },
            None => {},
        }
        let v = collapse_ws(ss[i].text.as_str());
        if v.as_str().unicode_len() > 0 {
            out.insert(v);
        }
        collect_strs(&ss[i].inner_contents, out);
        collect_strs(&ss[i].inner_texts, out);
        proof {
            assert(out.names().union(microdata_set(ss@.skip(i as int + 1))) =~= base.union(
                microdata_set(ss@),
            ));
        }
        i += 1;
    }
    proof {
        assert(ss@.skip(len as int) =~= Seq::<ScopedElem>::empty());
        assert(out.names() =~= out.names().union(microdata_set(ss@.skip(len as int))));
        assert(out.names() =~= base.union(microdata_set(ss@)));
    }
}

/// What one microformats author element contributes: its first inner
/// `.p-name` match's text, and its own text.
pub open spec fn mf_part(e: ScopedElem) -> Set<Seq<char>> {
    let pn = if e.inner_texts@.len() > 0 && spec_normalize(e.inner_texts@[0]@).len() > 0 {
        set![spec_normalize(e.inner_texts@[0]@)]
    } else {
        Set::<Seq<char>>::empty()
    };
    let own = if spec_normalize(e.text@).len() > 0 {
        set![spec_normalize(e.text@)]
    } else {
        Set::<Seq<char>>::empty()
    };
    pn.union(own)
}

/// The names contributed by every microformats author element.
pub open spec fn mf_set(ss: Seq<ScopedElem>) -> Set<Seq<char>>
    decreases ss.len(),
{
    if ss.len() == 0 {
        Set::empty()
    } else {
        mf_part(ss[0]).union(mf_set(ss.drop_first()))
    }
}

/// Inserts what the microformats author elements carry: each one's
/// first inner name text, and its own text.
pub fn collect_mf(ss: &Vec<ScopedElem>, out: &mut AuthorSet)
    requires
        old(out).wf(),
    ensures
        final(out).wf(),
        final(out).names() == old(out).names().union(mf_set(ss@)),
{
    let ghost base = out.names();
    let len = ss.len();
    let mut i: usize = 0;
    proof {
        assert(ss@.skip(0) =~= ss@);
    }
    while i < len
        invariant
            i <= len,
            len == ss@.len(),
            out.wf(),
            out.names().union(mf_set(ss@.skip(i as int))) == base.union(mf_set(ss@)),
        decreases len - i,
    {
        proof {
            let t = ss@.skip(i as int);
            assert(t[0] == ss@[i as int]);
            assert(t.drop_first() =~= ss@.skip(i as int + 1));
        }
        if ss[i].inner_texts.len() > 0 {
            let v = collapse_ws(ss[i].inner_texts[0].as_str());
            if v.as_str().unicode_len() > 0 {
                out.insert(v);
            }
        }
        let v = collapse_ws(ss[i].text.as_str());
        if v.as_str().unicode_len() > 0 {
            out.insert(v);
        }
        proof {
            assert(out.names().union(mf_set(ss@.skip(i as int + 1))) =~= base.union(mf_set(ss@)));
        }
        i += 1;
    }
    proof {
        assert(ss@.skip(len as int) =~= Seq::<ScopedElem>::empty());
        assert(out.names() =~= out.names().union(mf_set(ss@.skip(len as int))));
        assert(out.names() =~= base.union(mf_set(ss@)));
    }
}

} // verus!
