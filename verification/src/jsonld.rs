//! The structured-data walker: recursive descent over a parsed JSON-LD
//! value, collecting candidate strings for one property family. On an
//! object it reads the configured keys, then recurses into the `@graph`
//! member (graph flattening), then into every member value; on an array
//! it recurses into every element in order. Candidate order is traversal
//! order.

use vstd::prelude::*;
use vstd::string::StrSliceExecFns;
use vstd::string::StringExecFns;
use crate::json::{Json, obj_get, json_get};
use crate::text::{spec_trim, push_clean, views_of};
use crate::authors::AuthorSet;

verus! {

/// A member value of an object is structurally below the object's member
/// list.
pub proof fn lemma_obj_get_member(m: Seq<(String, Json)>, k: Seq<char>, x: Json)
    requires
        obj_get(m, k) == Some(x),
    ensures
        exists|i: int| 0 <= i < m.len() && #[trigger] m[i].1 == x,
    decreases m.len(),
{
    if m.len() > 0 {
        if m[0].0@ == k {
            assert(m[0].1 == x);
        } else {
            lemma_obj_get_member(m.drop_first(), k, x);
            let i = choose|i: int|
                0 <= i < m.drop_first().len() && #[trigger] m.drop_first()[i].1 == x;
            assert(m[i + 1].1 == x);
        }
    }
}

/// The candidate a member value contributes to a text family: the value
/// must be a string whose trimmed form is non-empty.
pub open spec fn text_candidate(o: Option<Json>) -> Seq<Seq<char>> {
    match o {
        Some(Json::Text(s)) => if spec_trim(s@).len() > 0 {
            seq![spec_trim(s@)]
        } else {
            Seq::empty()
        },
        _ => Seq::empty(),
    }
}

/// The candidates an object contributes directly: one per configured key
/// that holds a non-empty string, in key order.
pub open spec fn obj_text_candidates(m: Seq<(String, Json)>, keys: Seq<Seq<char>>) -> Seq<
    Seq<char>,
>
    decreases keys.len(),
{
    if keys.len() == 0 {
        Seq::empty()
    } else {
        text_candidate(obj_get(m, keys[0])) + obj_text_candidates(m, keys.drop_first())
    }
}

/// All candidates of a text family below a value, in traversal order:
/// the object's own keys, then the `@graph` member, then every member in
/// order; arrays element by element.
pub open spec fn spec_texts(j: Json, keys: Seq<Seq<char>>) -> Seq<Seq<char>>
    decreases j, 1int,
{
    match j {
        Json::Object(m) => obj_text_candidates(m@, keys) + graph_texts(m@, keys) + members_texts(
            m@,
            keys,
        ),
        Json::Array(a) => list_texts(a@, keys),
        _ => Seq::empty(),
    }
}

/// The candidates below the first `@graph` member, if any.
pub open spec fn graph_texts(m: Seq<(String, Json)>, keys: Seq<Seq<char>>) -> Seq<Seq<char>>
    decreases m, 0int,
{
    if m.len() == 0 {
        Seq::empty()
    } else if m[0].0@ == "@graph"@ {
        spec_texts(m[0].1, keys)
    } else {
        graph_texts(m.drop_first(), keys)
    }
}

/// The candidates below every member value, in member order.
pub open spec fn members_texts(m: Seq<(String, Json)>, keys: Seq<Seq<char>>) -> Seq<Seq<char>>
    decreases m, 0int,
{
    if m.len() == 0 {
        Seq::empty()
    } else {
        spec_texts(m[0].1, keys) + members_texts(m.drop_first(), keys)
    }
}

/// The candidates below every element of an array, in order.
pub open spec fn list_texts(s: Seq<Json>, keys: Seq<Seq<char>>) -> Seq<Seq<char>>
    decreases s, 0int,
{
    if s.len() == 0 {
        Seq::empty()
    } else {
        spec_texts(s[0], keys) + list_texts(s.drop_first(), keys)
    }
}

/// The `@graph` contribution is the contribution of the member the
/// lookup finds.
proof fn lemma_graph_texts(m: Seq<(String, Json)>, keys: Seq<Seq<char>>)
    ensures
        graph_texts(m, keys) == match obj_get(m, "@graph"@) {
            Some(g) => spec_texts(g, keys),
            None => Seq::<Seq<char>>::empty(),
        },
    decreases m.len(),
{
    if m.len() > 0 && m[0].0@ != "@graph"@ {
        lemma_graph_texts(m.drop_first(), keys);
    }
}

/// Graph flattening law: on an object that carries an `@graph` member,
/// the walk's candidates are the object's own key candidates, then the
/// whole walk below the graph value, then the walk below every member.
pub proof fn lemma_graph_flattening(j: Json, g: Json, keys: Seq<Seq<char>>)
    requires
        j is Object,
        obj_get((j->Object_0)@, "@graph"@) == Some(g),
    ensures
        spec_texts(j, keys) == obj_text_candidates((j->Object_0)@, keys) + spec_texts(g, keys)
            + members_texts((j->Object_0)@, keys),
{
    lemma_graph_texts((j->Object_0)@, keys);
}

/// Reads one configured key of an object and pushes its candidate, if
/// any.
fn push_text_candidate(m: &Vec<(String, Json)>, key: &str, out: &mut Vec<String>)
    ensures
        views_of(final(out)@) == views_of(old(out)@) + text_candidate(obj_get(m@, key@)),
{
    let g = json_get(m, key);
    match g {
        Some(Json::Text(s)) => {
            push_clean(s.as_str(), out);
            proof {
                assert(views_of(final(out)@) =~= views_of(old(out)@) + text_candidate(
                    obj_get(m@, key@),
                ));
            }
        },
        _ => {
            proof {
                assert(views_of(final(out)@) =~= views_of(old(out)@) + text_candidate(
                    obj_get(m@, key@),
                ));
            }
        },
    }
}

/// Collects every candidate of a text family below a value, in traversal
/// order, onto `out`.
pub fn collect_schema_texts(v: &Json, keys: &Vec<String>, out: &mut Vec<String>)
    ensures
        views_of(final(out)@) == views_of(old(out)@) + spec_texts(*v, views_of(keys@)),
    decreases *v,
{
    let ghost gkeys = views_of(keys@);
    match v {
        Json::Object(m) => {
            let ghost base = views_of(out@);
            let nk = keys.len();
            let mut ki: usize = 0;
            proof {
                assert(gkeys.skip(0) =~= gkeys);
            }
            while ki < nk
                invariant
                    ki <= nk,
                    nk == keys@.len(),
                    gkeys == views_of(keys@),
                    views_of(out@) + obj_text_candidates(m@, gkeys.skip(ki as int)) == base
                        + obj_text_candidates(m@, gkeys),
                decreases nk - ki,
            {
                proof {
                    let t = gkeys.skip(ki as int);
                    assert(t[0] == gkeys[ki as int]);
                    assert(t.drop_first() =~= gkeys.skip(ki as int + 1));
                }
                push_text_candidate(m, keys[ki].as_str(), out);
                ki += 1;
            }
            proof {
                assert(gkeys.skip(nk as int) =~= Seq::<Seq<char>>::empty());
                assert(views_of(out@) =~= views_of(out@) + obj_text_candidates(
                    m@,
                    gkeys.skip(nk as int),
                ));
                lemma_graph_texts(m@, gkeys);
            }
            let g = json_get(m, "@graph");
            match g {
                Some(gv) => {
                    proof {
                        lemma_obj_get_member(m@, "@graph"@, *gv);
                        let i = choose|i: int| 0 <= i < m@.len() && #[trigger] m@[i].1 == *gv;
                        assert(decreases_to!(*v => *m));
                        assert(decreases_to!(*m => m@[i]));
                        assert(decreases_to!(m@[i] => m@[i].1));
                        assert(decreases_to!(*v => *gv));
                    }
                    collect_schema_texts(gv, keys, out);
                },
                None => {},
            }
            let ghost mid = views_of(out@);
            proof {
                assert(mid == base + obj_text_candidates(m@, gkeys) + graph_texts(m@, gkeys));
            }
            let n = m.len();
            let mut mi: usize = 0;
            proof {
                assert(m@.skip(0) =~= m@);
            }
            while mi < n
                invariant
                    mi <= n,
                    n == m@.len(),
                    gkeys == views_of(keys@),
                    *v == Json::Object(*m),
                    views_of(out@) + members_texts(m@.skip(mi as int), gkeys) == mid
                        + members_texts(m@, gkeys),
                decreases n - mi,
            {
                proof {
                    let t = m@.skip(mi as int);
                    assert(t[0] == m@[mi as int]);
                    assert(t.drop_first() =~= m@.skip(mi as int + 1));
                    assert(decreases_to!(*v => (*v)->Object_0));
                    assert((*v)->Object_0 == *m);
                    assert(decreases_to!(*v => *m));
                    assert(decreases_to!(*m => m@[mi as int]));
                    assert(decreases_to!(m@[mi as int] => m@[mi as int].1));
                }
                collect_schema_texts(&m[mi].1, keys, out);
                mi += 1;
            }
            proof {
                assert(m@.skip(n as int) =~= Seq::<(String, Json)>::empty());
                assert(views_of(out@) =~= views_of(out@) + members_texts(m@.skip(n as int), gkeys));
                assert(views_of(out@) =~= views_of(old(out)@) + spec_texts(*v, gkeys));
            }
        },
        Json::Array(a) => {
            let ghost base = views_of(out@);
            let n = a.len();
            let mut i: usize = 0;
            proof {
                assert(a@.skip(0) =~= a@);
            }
            while i < n
                invariant
                    i <= n,
                    n == a@.len(),
                    gkeys == views_of(keys@),
                    *v == Json::Array(*a),
                    views_of(out@) + list_texts(a@.skip(i as int), gkeys) == base + list_texts(
                        a@,
                        gkeys,
                    ),
                decreases n - i,
            {
                proof {
                    let t = a@.skip(i as int);
                    assert(t[0] == a@[i as int]);
                    assert(t.drop_first() =~= a@.skip(i as int + 1));
                    assert(decreases_to!(*v => (*v)->Array_0));
                    assert((*v)->Array_0 == *a);
                    assert(decreases_to!(*v => *a));
                    assert(decreases_to!(*a => a@[i as int]));
                }
                collect_schema_texts(&a[i], keys, out);
                i += 1;
            }
            proof {
                assert(a@.skip(n as int) =~= Seq::<Json>::empty());
                assert(views_of(out@) =~= views_of(out@) + list_texts(a@.skip(n as int), gkeys));
                assert(views_of(out@) =~= views_of(old(out)@) + spec_texts(*v, gkeys));
            }
        },
        _ => {
            proof {
                assert(views_of(out@) =~= views_of(old(out)@) + spec_texts(*v, gkeys));
            }
        },
    }
}

/// The site-name candidate an object contributes directly: its `name`,
/// when its `@type` mentions `WebSite` (in the type string, or in one
/// element of a type array).
pub open spec fn site_obj_part(m: Seq<(String, Json)>) -> Seq<Seq<char>> {
    if crate::json::spec_type_mentions(m, "WebSite"@) {
        text_candidate(obj_get(m, "name"@))
    } else {
        Seq::empty()
    }
}

/// The name a publisher value contributes: its `name` member, when the
/// publisher is an object holding a non-empty name string.
pub open spec fn publisher_name(p: Json) -> Seq<Seq<char>> {
    match p {
        Json::Object(pm) => text_candidate(obj_get(pm@, "name"@)),
        _ => Seq::empty(),
    }
}

/// All site-name candidates below a value, in traversal order: the
/// object's own type-gated name, then the publisher member's name and
/// everything below the publisher, then the `@graph` member, then every
/// member in order.
pub open spec fn spec_site_names(j: Json) -> Seq<Seq<char>>
    decreases j, 1int,
{
    match j {
        Json::Object(m) => site_obj_part(m@) + publisher_sites(m@) + graph_sites(m@)
            + members_sites(m@),
        Json::Array(a) => list_sites(a@),
        _ => Seq::empty(),
    }
}

/// The candidates below the first `publisher` member, if any: its name,
/// then the walk below it.
pub open spec fn publisher_sites(m: Seq<(String, Json)>) -> Seq<Seq<char>>
    decreases m, 0int,
{
    if m.len() == 0 {
        Seq::empty()
    } else if m[0].0@ == "publisher"@ {
        publisher_name(m[0].1) + spec_site_names(m[0].1)
    } else {
        publisher_sites(m.drop_first())
    }
}

/// The candidates below the first `@graph` member, if any.
pub open spec fn graph_sites(m: Seq<(String, Json)>) -> Seq<Seq<char>>
    decreases m, 0int,
{
    if m.len() == 0 {
        Seq::empty()
    } else if m[0].0@ == "@graph"@ {
        spec_site_names(m[0].1)
    } else {
        graph_sites(m.drop_first())
    }
}

/// The candidates below every member value, in member order.
pub open spec fn members_sites(m: Seq<(String, Json)>) -> Seq<Seq<char>>
    decreases m, 0int,
{
    if m.len() == 0 {
        Seq::empty()
    } else {
        spec_site_names(m[0].1) + members_sites(m.drop_first())
    }
}

/// The candidates below every element of an array, in order.
pub open spec fn list_sites(s: Seq<Json>) -> Seq<Seq<char>>
    decreases s, 0int,
{
    if s.len() == 0 {
        Seq::empty()
    } else {
        spec_site_names(s[0]) + list_sites(s.drop_first())
    }
}

proof fn lemma_publisher_sites(m: Seq<(String, Json)>)
    ensures
        publisher_sites(m) == match obj_get(m, "publisher"@) {
            Some(p) => publisher_name(p) + spec_site_names(p),
            None => Seq::<Seq<char>>::empty(),
        },
    decreases m.len(),
{
    if m.len() > 0 && m[0].0@ != "publisher"@ {
        lemma_publisher_sites(m.drop_first());
    }
}

proof fn lemma_graph_sites(m: Seq<(String, Json)>)
    ensures
        graph_sites(m) == match obj_get(m, "@graph"@) {
            Some(g) => spec_site_names(g),
            None => Seq::<Seq<char>>::empty(),
        },
    decreases m.len(),
{
    if m.len() > 0 && m[0].0@ != "@graph"@ {
        lemma_graph_sites(m.drop_first());
    }
}

/// Collects every site-name candidate below a value, in traversal order,
/// onto `out`.
pub fn collect_schema_site_names(v: &Json, out: &mut Vec<String>)
    ensures
        views_of(final(out)@) == views_of(old(out)@) + spec_site_names(*v),
    decreases *v,
{
    match v {
        Json::Object(m) => {
            let ghost base = views_of(out@);
            if crate::json::type_mentions(m, "WebSite") {
                push_text_candidate(m, "name", out);
            }
            proof {
                assert(views_of(out@) =~= base + site_obj_part(m@));
                lemma_publisher_sites(m@);
            }
            let p = json_get(m, "publisher");
            match p {
                Some(pv) => {
                    match pv {
                        Json::Object(pm) => {
                            push_text_candidate(pm, "name", out);
                        },
                        _ => {},
                    }
                    proof {
                        assert(views_of(out@) =~= base + site_obj_part(m@) + publisher_name(*pv));
                        lemma_obj_get_member(m@, "publisher"@, *pv);
                        let i = choose|i: int| 0 <= i < m@.len() && #[trigger] m@[i].1 == *pv;
                        assert(decreases_to!(*v => *m));
                        assert(decreases_to!(*m => m@[i]));
                        assert(decreases_to!(m@[i] => m@[i].1));
                        assert(decreases_to!(*v => *pv));
                    }
                    collect_schema_site_names(pv, out);
                },
                None => {},
            }
            proof {
                assert(views_of(out@) =~= base + site_obj_part(m@) + publisher_sites(m@));
                lemma_graph_sites(m@);
            }
            let g = json_get(m, "@graph");
            match g {
                Some(gv) => {
                    proof {
                        lemma_obj_get_member(m@, "@graph"@, *gv);
                        let i = choose|i: int| 0 <= i < m@.len() && #[trigger] m@[i].1 == *gv;
                        assert(decreases_to!(*v => *m));
                        assert(decreases_to!(*m => m@[i]));
                        assert(decreases_to!(m@[i] => m@[i].1));
                        assert(decreases_to!(*v => *gv));
                    }
                    collect_schema_site_names(gv, out);
                },
                None => {},
            }
            let ghost mid = views_of(out@);
            proof {
                assert(mid == base + site_obj_part(m@) + publisher_sites(m@) + graph_sites(m@));
            }
            let n = m.len();
            let mut mi: usize = 0;
            proof {
                assert(m@.skip(0) =~= m@);
            }
            while mi < n
                invariant
                    mi <= n,
                    n == m@.len(),
                    *v == Json::Object(*m),
                    views_of(out@) + members_sites(m@.skip(mi as int)) == mid + members_sites(m@),
                decreases n - mi,
            {
                proof {
                    let t = m@.skip(mi as int);
                    assert(t[0] == m@[mi as int]);
                    assert(t.drop_first() =~= m@.skip(mi as int + 1));
                    assert(decreases_to!(*v => (*v)->Object_0));
                    assert((*v)->Object_0 == *m);
                    assert(decreases_to!(*v => *m));
                    assert(decreases_to!(*m => m@[mi as int]));
                    assert(decreases_to!(m@[mi as int] => m@[mi as int].1));
                }
                collect_schema_site_names(&m[mi].1, out);
                mi += 1;
            }
            proof {
                assert(m@.skip(n as int) =~= Seq::<(String, Json)>::empty());
                assert(views_of(out@) =~= views_of(out@) + members_sites(m@.skip(n as int)));
                assert(views_of(out@) =~= views_of(old(out)@) + spec_site_names(*v));
            }
        },
        Json::Array(a) => {
            let ghost base = views_of(out@);
            let n = a.len();
            let mut i: usize = 0;
            proof {
                assert(a@.skip(0) =~= a@);
            }
            while i < n
                invariant
                    i <= n,
                    n == a@.len(),
                    *v == Json::Array(*a),
                    views_of(out@) + list_sites(a@.skip(i as int)) == base + list_sites(a@),
                decreases n - i,
            {
                proof {
                    let t = a@.skip(i as int);
                    assert(t[0] == a@[i as int]);
                    assert(t.drop_first() =~= a@.skip(i as int + 1));
                    assert(decreases_to!(*v => (*v)->Array_0));
                    assert((*v)->Array_0 == *a);
                    assert(decreases_to!(*v => *a));
                    assert(decreases_to!(*a => a@[i as int]));
                }
                collect_schema_site_names(&a[i], out);
                i += 1;
            }
            proof {
                assert(a@.skip(n as int) =~= Seq::<Json>::empty());
                assert(views_of(out@) =~= views_of(out@) + list_sites(a@.skip(n as int)));
                assert(views_of(out@) =~= views_of(old(out)@) + spec_site_names(*v));
            }
        },
        _ => {
            proof {
                assert(views_of(out@) =~= views_of(old(out)@) + spec_site_names(*v));
            }
        },
    }
}

/// The trimmed string a member holds, or the empty sequence where the
/// member is absent or not a string; the shape `givenName` and
/// `familyName` are read in.
pub open spec fn trimmed_str_member(m: Seq<(String, Json)>, k: Seq<char>) -> Seq<char> {
    match obj_get(m, k) {
        Some(Json::Text(s)) => spec_trim(s@),
        _ => Seq::empty(),
    }
}

/// The name built from `givenName` and `familyName`: both joined with a
/// space, either alone, or nothing.
pub open spec fn given_family_name(m: Seq<(String, Json)>) -> Set<Seq<char>> {
    let gn = trimmed_str_member(m, "givenName"@);
    let fam = trimmed_str_member(m, "familyName"@);
    if gn.len() > 0 && fam.len() > 0 {
        set![gn + seq![' '] + fam]
    } else if gn.len() > 0 {
        set![gn]
    } else if fam.len() > 0 {
        set![fam]
    } else {
        Set::empty()
    }
}

/// The author names one author/creator value contributes: a non-empty
/// string that does not look like a URL stands for itself; an object is
/// read through `name`, else `givenName`/`familyName`; an array
/// contributes every element's names.
pub open spec fn spec_author_node(j: Json) -> Set<Seq<char>>
    decreases j, 1int,
{
    match j {
        Json::Text(s) => if spec_trim(s@).len() > 0 && !crate::strops::spec_looks_like_url(
            spec_trim(s@),
        ) {
            set![spec_trim(s@)]
        } else {
            Set::empty()
        },
        Json::Object(m) => {
            match obj_get(m@, "name"@) {
                Some(Json::Text(n)) => if spec_trim(n@).len() > 0 {
                    set![spec_trim(n@)]
                } else {
                    given_family_name(m@)
                },
                _ => given_family_name(m@),
            }
        },
        Json::Array(a) => author_node_list(a@),
        _ => Set::empty(),
    }
}

/// The names contributed by every element of an author array.
pub open spec fn author_node_list(s: Seq<Json>) -> Set<Seq<char>>
    decreases s, 0int,
{
    if s.len() == 0 {
        Set::empty()
    } else {
        spec_author_node(s[0]).union(author_node_list(s.drop_first()))
    }
}

/// The names a member contributes when read as an author node.
pub open spec fn author_member(m: Seq<(String, Json)>, k: Seq<char>) -> Set<Seq<char>> {
    match obj_get(m, k) {
        Some(x) => spec_author_node(x),
        None => Set::empty(),
    }
}

/// All author names below a value: each object's `author` and `creator`
/// members read as author nodes, the `@graph` member flattened, and
/// every member value walked in turn.
pub open spec fn spec_schema_authors(j: Json) -> Set<Seq<char>>
    decreases j, 1int,
{
    match j {
        Json::Object(m) => author_member(m@, "author"@).union(
            author_member(m@, "creator"@),
        ).union(graph_authors(m@)).union(members_authors(m@)),
        Json::Array(a) => list_authors(a@),
        _ => Set::empty(),
    }
}

/// The names below the first `@graph` member, if any.
pub open spec fn graph_authors(m: Seq<(String, Json)>) -> Set<Seq<char>>
    decreases m, 0int,
{
    if m.len() == 0 {
        Set::empty()
    } else if m[0].0@ == "@graph"@ {
        spec_schema_authors(m[0].1)
    } else {
        graph_authors(m.drop_first())
    }
}

/// The names below every member value.
pub open spec fn members_authors(m: Seq<(String, Json)>) -> Set<Seq<char>>
    decreases m, 0int,
{
    if m.len() == 0 {
        Set::empty()
    } else {
        spec_schema_authors(m[0].1).union(members_authors(m.drop_first()))
    }
}

/// The names below every element of an array.
pub open spec fn list_authors(s: Seq<Json>) -> Set<Seq<char>>
    decreases s, 0int,
{
    if s.len() == 0 {
        Set::empty()
    } else {
        spec_schema_authors(s[0]).union(list_authors(s.drop_first()))
    }
}

proof fn lemma_graph_authors(m: Seq<(String, Json)>)
    ensures
        graph_authors(m) == match obj_get(m, "@graph"@) {
            Some(g) => spec_schema_authors(g),
            None => Set::<Seq<char>>::empty(),
        },
    decreases m.len(),
{
    if m.len() > 0 && m[0].0@ != "@graph"@ {
        lemma_graph_authors(m.drop_first());
    }
}

/// Reads a member as a trimmed string, or empty.
fn trimmed_str_of(m: &Vec<(String, Json)>, k: &str) -> (r: String)
    ensures
        r@ == trimmed_str_member(m@, k@),
{
    match json_get(m, k) {
        Some(Json::Text(s)) => String::from_str(crate::text::trim_str(s.as_str())),
        _ => String::new(),
    }
}

/// Reads one author/creator value and adds every name it contributes to
/// the author set.
pub fn extract_author_node(node: &Json, out: &mut AuthorSet)
    requires
        old(out).wf(),
    ensures
        final(out).wf(),
        final(out).names() == old(out).names().union(spec_author_node(*node)),
    decreases *node,
{
    match node {
        Json::Text(s) => {
            let t = crate::text::trim_str(s.as_str());
            if t.unicode_len() > 0 && !crate::strops::looks_like_url(t) {
                out.insert(String::from_str(t));
                proof {
                    assert(out.names() =~= old(out).names().union(spec_author_node(*node)));
                }
            } else {
                proof {
                    assert(out.names() =~= old(out).names().union(spec_author_node(*node)));
                }
            }
        },
        Json::Object(m) => {
            let mut named = false;
            match json_get(m, "name") {
                Some(Json::Text(n)) => {
                    let t = crate::text::trim_str(n.as_str());
                    if t.unicode_len() > 0 {
                        out.insert(String::from_str(t));
                        named = true;
                    }
                },
                _ => {},
            }
            if !named {
                let gn = trimmed_str_of(m, "givenName");
                let fam = trimmed_str_of(m, "familyName");
                if gn.as_str().unicode_len() > 0 && fam.as_str().unicode_len() > 0 {
                    let mut full = gn;
                    crate::text::push_char(&mut full, ' ');
                    full.append(fam.as_str());
                    proof {
                        assert(full@ =~= trimmed_str_member(m@, "givenName"@) + seq![' ']
                            + trimmed_str_member(m@, "familyName"@));
                    }
                    out.insert(full);
                } else if gn.as_str().unicode_len() > 0 {
                    out.insert(gn);
                } else if fam.as_str().unicode_len() > 0 {
                    out.insert(fam);
                }
            }
            proof {
                assert(out.names() =~= old(out).names().union(spec_author_node(*node)));
            }
        },
        Json::Array(a) => {
            let ghost base = out.names();
            let n = a.len();
            let mut i: usize = 0;
            proof {
                assert(a@.skip(0) =~= a@);
            }
            while i < n
                invariant
                    i <= n,
                    n == a@.len(),
                    *node == Json::Array(*a),
                    out.wf(),
                    out.names().union(author_node_list(a@.skip(i as int))) == base.union(
                        author_node_list(a@),
                    ),
                decreases n - i,
            {
                proof {
                    let t = a@.skip(i as int);
                    assert(t[0] == a@[i as int]);
                    assert(t.drop_first() =~= a@.skip(i as int + 1));
                    assert(decreases_to!(*node => (*node)->Array_0));
                    assert((*node)->Array_0 == *a);
                    assert(decreases_to!(*node => *a));
                    assert(decreases_to!(*a => a@[i as int]));
                }
                let ghost pre = out.names();
                extract_author_node(&a[i], out);
                proof {
                    assert(out.names().union(author_node_list(a@.skip(i as int + 1))) =~= base.union(
                        author_node_list(a@),
                    ));
                }
                i += 1;
            }
            proof {
                assert(a@.skip(n as int) =~= Seq::<Json>::empty());
                assert(out.names() =~= out.names().union(author_node_list(a@.skip(n as int))));
                assert(out.names() =~= old(out).names().union(spec_author_node(*node)));
            }
        },
        _ => {
            proof {
                assert(out.names() =~= old(out).names().union(spec_author_node(*node)));
            }
        },
    }
}

/// Collects every author name below a value into the author set: the
/// JSON-LD author/creator graph walk.
pub fn collect_schema_authors(v: &Json, out: &mut AuthorSet)
    requires
        old(out).wf(),
    ensures
        final(out).wf(),
        final(out).names() == old(out).names().union(spec_schema_authors(*v)),
    decreases *v,
{
    match v {
        Json::Object(m) => {
            let ghost base = out.names();
            match json_get(m, "author") {
                Some(x) => {
                    proof {
                        lemma_obj_get_member(m@, "author"@, *x);
                        let i = choose|i: int| 0 <= i < m@.len() && #[trigger] m@[i].1 == *x;
                        assert(decreases_to!(*v => *m));
                        assert(decreases_to!(*m => m@[i]));
                        assert(decreases_to!(m@[i] => m@[i].1));
                        assert(decreases_to!(*v => *x));
                    }
                    extract_author_node(x, out);
                },
                None => {},
            }
            proof {
                assert(out.names() =~= base.union(author_member(m@, "author"@)));
            }
            match json_get(m, "creator") {
                Some(x) => {
                    proof {
                        lemma_obj_get_member(m@, "creator"@, *x);
                        let i = choose|i: int| 0 <= i < m@.len() && #[trigger] m@[i].1 == *x;
                        assert(decreases_to!(*v => *m));
                        assert(decreases_to!(*m => m@[i]));
                        assert(decreases_to!(m@[i] => m@[i].1));
                        assert(decreases_to!(*v => *x));
                    }
                    extract_author_node(x, out);
                },
                None => {},
            }
            proof {
                assert(out.names() =~= base.union(author_member(m@, "author"@)).union(
                    author_member(m@, "creator"@),
                ));
                lemma_graph_authors(m@);
            }
            match json_get(m, "@graph") {
                Some(gv) => {
                    proof {
                        lemma_obj_get_member(m@, "@graph"@, *gv);
                        let i = choose|i: int| 0 <= i < m@.len() && #[trigger] m@[i].1 == *gv;
                        assert(decreases_to!(*v => *m));
                        assert(decreases_to!(*m => m@[i]));
                        assert(decreases_to!(m@[i] => m@[i].1));
                        assert(decreases_to!(*v => *gv));
                    }
                    collect_schema_authors(gv, out);
                },
                None => {},
            }
            let ghost mid = out.names();
            proof {
                assert(mid =~= base.union(author_member(m@, "author"@)).union(
                    author_member(m@, "creator"@),
                ).union(graph_authors(m@)));
            }
            let n = m.len();
            let mut mi: usize = 0;
            proof {
                assert(m@.skip(0) =~= m@);
            }
            while mi < n
                invariant
                    mi <= n,
                    n == m@.len(),
                    *v == Json::Object(*m),
                    out.wf(),
                    out.names().union(members_authors(m@.skip(mi as int))) == mid.union(
                        members_authors(m@),
                    ),
                decreases n - mi,
            {
                proof {
                    let t = m@.skip(mi as int);
                    assert(t[0] == m@[mi as int]);
                    assert(t.drop_first() =~= m@.skip(mi as int + 1));
                    assert(decreases_to!(*v => (*v)->Object_0));
                    assert((*v)->Object_0 == *m);
                    assert(decreases_to!(*v => *m));
                    assert(decreases_to!(*m => m@[mi as int]));
                    assert(decreases_to!(m@[mi as int] => m@[mi as int].1));
                }
                collect_schema_authors(&m[mi].1, out);
                proof {
                    assert(out.names().union(members_authors(m@.skip(mi as int + 1))) =~= mid.union(
                        members_authors(m@),
                    ));
                }
                mi += 1;
            }
            proof {
                assert(m@.skip(n as int) =~= Seq::<(String, Json)>::empty());
                assert(out.names() =~= out.names().union(members_authors(m@.skip(n as int))));
                assert(out.names() =~= old(out).names().union(spec_schema_authors(*v)));
            }
        },
        Json::Array(a) => {
            let ghost base = out.names();
            let n = a.len();
            let mut i: usize = 0;
            proof {
                assert(a@.skip(0) =~= a@);
            }
            while i < n
                invariant
                    i <= n,
                    n == a@.len(),
                    *v == Json::Array(*a),
                    out.wf(),
                    out.names().union(list_authors(a@.skip(i as int))) == base.union(
                        list_authors(a@),
                    ),
                decreases n - i,
            {
                proof {
                    let t = a@.skip(i as int);
                    assert(t[0] == a@[i as int]);
                    assert(t.drop_first() =~= a@.skip(i as int + 1));
                    assert(decreases_to!(*v => (*v)->Array_0));
                    assert((*v)->Array_0 == *a);
                    assert(decreases_to!(*v => *a));
                    assert(decreases_to!(*a => a@[i as int]));
                }
                collect_schema_authors(&a[i], out);
                proof {
                    assert(out.names().union(list_authors(a@.skip(i as int + 1))) =~= base.union(
                        list_authors(a@),
                    ));
                }
                i += 1;
            }
            proof {
                assert(a@.skip(n as int) =~= Seq::<Json>::empty());
                assert(out.names() =~= out.names().union(list_authors(a@.skip(n as int))));
                assert(out.names() =~= old(out).names().union(spec_schema_authors(*v)));
            }
        },
        _ => {
            proof {
                assert(out.names() =~= old(out).names().union(spec_schema_authors(*v)));
            }
        },
    }
}

/// The trimmed candidate a single URL string contributes, when
/// non-empty.
pub open spec fn clean_seq(s: Seq<char>) -> Seq<Seq<char>> {
    if spec_trim(s).len() > 0 {
        seq![spec_trim(s)]
    } else {
        Seq::empty()
    }
}

/// The URL a member value contributes when read as an image URL holder:
/// only a string counts.
pub open spec fn text_clean_of(o: Option<Json>) -> Seq<Seq<char>> {
    match o {
        Some(Json::Text(s)) => clean_seq(s@),
        _ => Seq::empty(),
    }
}

/// The image URLs one image value contributes: a string stands for
/// itself; an object is read through `contentUrl`, else `url`; an array
/// contributes every element's URLs in order.
pub open spec fn spec_image_value(j: Json) -> Seq<Seq<char>>
    decreases j, 1int,
{
    match j {
        Json::Text(s) => clean_seq(s@),
        Json::Object(m) => match obj_get(m@, "contentUrl"@) {
            Some(u) => text_clean_of(Some(u)),
            None => text_clean_of(obj_get(m@, "url"@)),
        },
        Json::Array(a) => image_value_list(a@),
        _ => Seq::empty(),
    }
}

/// The URLs contributed by every element of an image array, in order.
pub open spec fn image_value_list(s: Seq<Json>) -> Seq<Seq<char>>
    decreases s, 0int,
{
    if s.len() == 0 {
        Seq::empty()
    } else {
        spec_image_value(s[0]) + image_value_list(s.drop_first())
    }
}

/// Reads one image value and appends every URL it contributes, in order.
pub fn push_image_value(x: &Json, out: &mut Vec<String>)
    ensures
        views_of(final(out)@) == views_of(old(out)@) + spec_image_value(*x),
    decreases *x,
{
    match x {
        Json::Text(s) => {
            push_clean(s.as_str(), out);
            proof {
                assert(views_of(out@) =~= views_of(old(out)@) + spec_image_value(*x));
            }
        },
        Json::Object(m) => {
            match json_get(m, "contentUrl") {
                Some(Json::Text(u)) => {
                    push_clean(u.as_str(), out);
                },
                Some(_) => {},
                None => {
                    match json_get(m, "url") {
                        Some(Json::Text(u)) => {
                            push_clean(u.as_str(), out);
                        },
                        _ => {},
                    }
                },
            }
            proof {
                assert(views_of(out@) =~= views_of(old(out)@) + spec_image_value(*x));
            }
        },
        Json::Array(a) => {
            let ghost base = views_of(out@);
            let n = a.len();
            let mut i: usize = 0;
            proof {
                assert(a@.skip(0) =~= a@);
            }
            while i < n
                invariant
                    i <= n,
                    n == a@.len(),
                    *x == Json::Array(*a),
                    views_of(out@) + image_value_list(a@.skip(i as int)) == base
                        + image_value_list(a@),
                decreases n - i,
            {
                proof {
                    let t = a@.skip(i as int);
                    assert(t[0] == a@[i as int]);
                    assert(t.drop_first() =~= a@.skip(i as int + 1));
                    assert(decreases_to!(*x => (*x)->Array_0));
                    assert((*x)->Array_0 == *a);
                    assert(decreases_to!(*x => *a));
                    assert(decreases_to!(*a => a@[i as int]));
                }
                push_image_value(&a[i], out);
                i += 1;
            }
            proof {
                assert(a@.skip(n as int) =~= Seq::<Json>::empty());
                assert(views_of(out@) =~= views_of(out@) + image_value_list(a@.skip(n as int)));
                assert(views_of(out@) =~= views_of(old(out)@) + spec_image_value(*x));
            }
        },
        _ => {
            proof {
                assert(views_of(out@) =~= views_of(old(out)@) + spec_image_value(*x));
            }
        },
    }
}

/// The primary-image URLs an object contributes directly: its
/// `primaryImageOfPage`, only when `@type` names `WebPage`.
pub open spec fn primary_obj_part(m: Seq<(String, Json)>) -> Seq<Seq<char>> {
    if crate::json::spec_is_type(m, "WebPage"@) {
        match obj_get(m, "primaryImageOfPage"@) {
            Some(x) => spec_image_value(x),
            None => Seq::empty(),
        }
    } else {
        Seq::empty()
    }
}

/// All primary-image URLs below a value, in traversal order.
pub open spec fn spec_primary_images(j: Json) -> Seq<Seq<char>>
    decreases j, 1int,
{
    match j {
        Json::Object(m) => primary_obj_part(m@) + graph_primary(m@) + members_primary(m@),
        Json::Array(a) => list_primary(a@),
        _ => Seq::empty(),
    }
}

/// The URLs below the first `@graph` member, if any.
pub open spec fn graph_primary(m: Seq<(String, Json)>) -> Seq<Seq<char>>
    decreases m, 0int,
{
    if m.len() == 0 {
        Seq::empty()
    } else if m[0].0@ == "@graph"@ {
        spec_primary_images(m[0].1)
    } else {
        graph_primary(m.drop_first())
    }
}

/// The URLs below every member value, in member order.
pub open spec fn members_primary(m: Seq<(String, Json)>) -> Seq<Seq<char>>
    decreases m, 0int,
{
    if m.len() == 0 {
        Seq::empty()
    } else {
        spec_primary_images(m[0].1) + members_primary(m.drop_first())
    }
}

/// The URLs below every element of an array, in order.
pub open spec fn list_primary(s: Seq<Json>) -> Seq<Seq<char>>
    decreases s, 0int,
{
    if s.len() == 0 {
        Seq::empty()
    } else {
        spec_primary_images(s[0]) + list_primary(s.drop_first())
    }
}

proof fn lemma_graph_primary(m: Seq<(String, Json)>)
    ensures
        graph_primary(m) == match obj_get(m, "@graph"@) {
            Some(g) => spec_primary_images(g),
            None => Seq::<Seq<char>>::empty(),
        },
    decreases m.len(),
{
    if m.len() > 0 && m[0].0@ != "@graph"@ {
        lemma_graph_primary(m.drop_first());
    }
}

/// Collects every `WebPage.primaryImageOfPage` URL below a value, in
/// traversal order, onto `out`.
pub fn collect_primary_image(v: &Json, out: &mut Vec<String>)
    ensures
        views_of(final(out)@) == views_of(old(out)@) + spec_primary_images(*v),
    decreases *v,
{
    match v {
        Json::Object(m) => {
            let ghost base = views_of(out@);
            if crate::json::is_type(m, "WebPage") {
                match json_get(m, "primaryImageOfPage") {
                    Some(x) => {
                        proof {
                            lemma_obj_get_member(m@, "primaryImageOfPage"@, *x);
                            let i = choose|i: int| 0 <= i < m@.len() && #[trigger] m@[i].1 == *x;
                            assert(decreases_to!(*v => *m));
                            assert(decreases_to!(*m => m@[i]));
                            assert(decreases_to!(m@[i] => m@[i].1));
                            assert(decreases_to!(*v => *x));
                        }
                        push_image_value(x, out);
                    },
                    None => {},
                }
            }
            proof {
                assert(views_of(out@) =~= base + primary_obj_part(m@));
                lemma_graph_primary(m@);
            }
            match json_get(m, "@graph") {
                Some(gv) => {
                    proof {
                        lemma_obj_get_member(m@, "@graph"@, *gv);
                        let i = choose|i: int| 0 <= i < m@.len() && #[trigger] m@[i].1 == *gv;
                        assert(decreases_to!(*v => *m));
                        assert(decreases_to!(*m => m@[i]));
                        assert(decreases_to!(m@[i] => m@[i].1));
                        assert(decreases_to!(*v => *gv));
                    }
                    collect_primary_image(gv, out);
                },
                None => {},
            }
            let ghost mid = views_of(out@);
            proof {
                assert(mid == base + primary_obj_part(m@) + graph_primary(m@));
            }
            let n = m.len();
            let mut mi: usize = 0;
            proof {
                assert(m@.skip(0) =~= m@);
            }
            while mi < n
                invariant
                    mi <= n,
                    n == m@.len(),
                    *v == Json::Object(*m),
                    views_of(out@) + members_primary(m@.skip(mi as int)) == mid + members_primary(
                        m@,
                    ),
                decreases n - mi,
            {
                proof {
                    let t = m@.skip(mi as int);
                    assert(t[0] == m@[mi as int]);
                    assert(t.drop_first() =~= m@.skip(mi as int + 1));
                    assert(decreases_to!(*v => (*v)->Object_0));
                    assert((*v)->Object_0 == *m);
                    assert(decreases_to!(*v => *m));
                    assert(decreases_to!(*m => m@[mi as int]));
                    assert(decreases_to!(m@[mi as int] => m@[mi as int].1));
                }
                collect_primary_image(&m[mi].1, out);
                mi += 1;
            }
            proof {
                assert(m@.skip(n as int) =~= Seq::<(String, Json)>::empty());
                assert(views_of(out@) =~= views_of(out@) + members_primary(m@.skip(n as int)));
                assert(views_of(out@) =~= views_of(old(out)@) + spec_primary_images(*v));
            }
        },
        Json::Array(a) => {
            let ghost base = views_of(out@);
            let n = a.len();
            let mut i: usize = 0;
            proof {
                assert(a@.skip(0) =~= a@);
            }
            while i < n
                invariant
                    i <= n,
                    n == a@.len(),
                    *v == Json::Array(*a),
                    views_of(out@) + list_primary(a@.skip(i as int)) == base + list_primary(a@),
                decreases n - i,
            {
                proof {
                    let t = a@.skip(i as int);
                    assert(t[0] == a@[i as int]);
                    assert(t.drop_first() =~= a@.skip(i as int + 1));
                    assert(decreases_to!(*v => (*v)->Array_0));
                    assert((*v)->Array_0 == *a);
                    assert(decreases_to!(*v => *a));
                    assert(decreases_to!(*a => a@[i as int]));
                }
                collect_primary_image(&a[i], out);
                i += 1;
            }
            proof {
                assert(a@.skip(n as int) =~= Seq::<Json>::empty());
                assert(views_of(out@) =~= views_of(out@) + list_primary(a@.skip(n as int)));
                assert(views_of(out@) =~= views_of(old(out)@) + spec_primary_images(*v));
            }
        },
        _ => {
            proof {
                assert(views_of(out@) =~= views_of(old(out)@) + spec_primary_images(*v));
            }
        },
    }
}

/// Whether an image value marks itself as representative of the page.
pub open spec fn is_representative(x: Json) -> bool {
    match x {
        Json::Object(im) => obj_get(im@, "representativeOfPage"@) == Some(Json::Bool(true)),
        _ => false,
    }
}

/// What an object's `image` member does to the accumulated candidate
/// list: a representative image's URLs go to the front (stable prefer
/// reordering), any other image's URLs are appended.
pub open spec fn generic_image_step(m: Seq<(String, Json)>, acc: Seq<Seq<char>>) -> Seq<
    Seq<char>,
> {
    match obj_get(m, "image"@) {
        Some(x) => if is_representative(x) {
            spec_image_value(x) + acc
        } else {
            acc + spec_image_value(x)
        },
        None => acc,
    }
}

/// What the whole walk below a value does to the accumulated candidate
/// list: the object's `image` member first, then the `@graph` member,
/// then every member in order.
pub open spec fn spec_generic_images(j: Json, acc: Seq<Seq<char>>) -> Seq<Seq<char>>
    decreases j, 1int,
{
    match j {
        Json::Object(m) => members_generic(m@, graph_generic(m@, generic_image_step(m@, acc))),
        Json::Array(a) => list_generic(a@, acc),
        _ => acc,
    }
}

/// The walk below the first `@graph` member, if any.
pub open spec fn graph_generic(m: Seq<(String, Json)>, acc: Seq<Seq<char>>) -> Seq<Seq<char>>
    decreases m, 0int,
{
    if m.len() == 0 {
        acc
    } else if m[0].0@ == "@graph"@ {
        spec_generic_images(m[0].1, acc)
    } else {
        graph_generic(m.drop_first(), acc)
    }
}

/// The walk below every member value, in member order.
pub open spec fn members_generic(m: Seq<(String, Json)>, acc: Seq<Seq<char>>) -> Seq<Seq<char>>
    decreases m, 0int,
{
    if m.len() == 0 {
        acc
    } else {
        members_generic(m.drop_first(), spec_generic_images(m[0].1, acc))
    }
}

/// The walk below every element of an array, in order.
pub open spec fn list_generic(s: Seq<Json>, acc: Seq<Seq<char>>) -> Seq<Seq<char>>
    decreases s, 0int,
{
    if s.len() == 0 {
        acc
    } else {
        list_generic(s.drop_first(), spec_generic_images(s[0], acc))
    }
}

proof fn lemma_graph_generic(m: Seq<(String, Json)>, acc: Seq<Seq<char>>)
    ensures
        graph_generic(m, acc) == match obj_get(m, "@graph"@) {
            Some(g) => spec_generic_images(g, acc),
            None => acc,
        },
    decreases m.len(),
{
    if m.len() > 0 && m[0].0@ != "@graph"@ {
        lemma_graph_generic(m.drop_first(), acc);
    }
}

/// Collects every generic `image` URL below a value onto `out`, keeping
/// traversal order except that a representative image's URLs are placed
/// at the front of what has been collected so far.
pub fn collect_generic_image(v: &Json, out: &mut Vec<String>)
    ensures
        views_of(final(out)@) == spec_generic_images(*v, views_of(old(out)@)),
    decreases *v,
{
    match v {
        Json::Object(m) => {
            match json_get(m, "image") {
                Some(x) => {
                    let repr = match x {
                        Json::Object(im) => {
                            match json_get(im, "representativeOfPage") {
                                Some(Json::Bool(b)) => *b,
                                _ => false,
                            }
                        },
                        _ => false,
                    };
                    proof {
                        assert(repr == is_representative(*x));
                        lemma_obj_get_member(m@, "image"@, *x);
                        let i = choose|i: int| 0 <= i < m@.len() && #[trigger] m@[i].1 == *x;
                        assert(decreases_to!(*v => *m));
                        assert(decreases_to!(*m => m@[i]));
                        assert(decreases_to!(m@[i] => m@[i].1));
                        assert(decreases_to!(*v => *x));
                    }
                    if repr {
                        let mut tmp: Vec<String> = Vec::new();
                        proof {
                            assert(views_of(tmp@) =~= Seq::<Seq<char>>::empty());
                        }
                        push_image_value(x, &mut tmp);
                        proof {
                            assert(views_of(tmp@) =~= spec_image_value(*x));
                        }
                        tmp.append(out);
                        proof {
                            assert(views_of(tmp@) =~= spec_image_value(*x) + views_of(old(out)@));
                        }
                        *out = tmp;
                    } else {
                        push_image_value(x, out);
                    }
                },
                None => {},
            }
            proof {
                assert(views_of(out@) =~= generic_image_step(m@, views_of(old(out)@)));
                lemma_graph_generic(m@, views_of(out@));
            }
            match json_get(m, "@graph") {
                Some(gv) => {
                    proof {
                        lemma_obj_get_member(m@, "@graph"@, *gv);
                        let i = choose|i: int| 0 <= i < m@.len() && #[trigger] m@[i].1 == *gv;
                        assert(decreases_to!(*v => *m));
                        assert(decreases_to!(*m => m@[i]));
                        assert(decreases_to!(m@[i] => m@[i].1));
                        assert(decreases_to!(*v => *gv));
                    }
                    collect_generic_image(gv, out);
                },
                None => {},
            }
            let ghost mid = views_of(out@);
            proof {
                assert(mid == graph_generic(m@, generic_image_step(m@, views_of(old(out)@))));
            }
            let n = m.len();
            let mut mi: usize = 0;
            proof {
                assert(m@.skip(0) =~= m@);
            }
            while mi < n
                invariant
                    mi <= n,
                    n == m@.len(),
                    *v == Json::Object(*m),
                    members_generic(m@.skip(mi as int), views_of(out@)) == members_generic(
                        m@,
                        mid,
                    ),
                decreases n - mi,
            {
                proof {
                    let t = m@.skip(mi as int);
                    assert(t[0] == m@[mi as int]);
                    assert(t.drop_first() =~= m@.skip(mi as int + 1));
                    assert(decreases_to!(*v => (*v)->Object_0));
                    assert((*v)->Object_0 == *m);
                    assert(decreases_to!(*v => *m));
                    assert(decreases_to!(*m => m@[mi as int]));
                    assert(decreases_to!(m@[mi as int] => m@[mi as int].1));
                }
                collect_generic_image(&m[mi].1, out);
                mi += 1;
            }
            proof {
                assert(m@.skip(n as int) =~= Seq::<(String, Json)>::empty());
                assert(views_of(out@) == members_generic(m@.skip(n as int), views_of(out@)));
                assert(views_of(out@) =~= spec_generic_images(*v, views_of(old(out)@)));
            }
        },
        Json::Array(a) => {
            let ghost base = views_of(out@);
            let n = a.len();
            let mut i: usize = 0;
            proof {
                assert(a@.skip(0) =~= a@);
            }
            while i < n
                invariant
                    i <= n,
                    n == a@.len(),
                    *v == Json::Array(*a),
                    list_generic(a@.skip(i as int), views_of(out@)) == list_generic(a@, base),
                decreases n - i,
            {
                proof {
                    let t = a@.skip(i as int);
                    assert(t[0] == a@[i as int]);
                    assert(t.drop_first() =~= a@.skip(i as int + 1));
                    assert(decreases_to!(*v => (*v)->Array_0));
                    assert((*v)->Array_0 == *a);
                    assert(decreases_to!(*v => *a));
                    assert(decreases_to!(*a => a@[i as int]));
                }
                collect_generic_image(&a[i], out);
                i += 1;
            }
            proof {
                assert(a@.skip(n as int) =~= Seq::<Json>::empty());
                assert(views_of(out@) == list_generic(a@.skip(n as int), views_of(out@)));
                assert(views_of(out@) =~= spec_generic_images(*v, views_of(old(out)@)));
            }
        },
        _ => {},
    }
}

} // verus!
