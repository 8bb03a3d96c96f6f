//! The entry assembler and the output record: one immutable `Entry` per
//! extraction, built from the scanned document, the resolved fields and
//! the content-extraction collaborator's text; and the serializable view
//! of it, whose author list is sorted so that the primary author is the
//! lexicographically smallest member.

use vstd::prelude::*;
use vstd::string::StrSliceExecFns;
use crate::authors::AuthorSet;
use crate::doc::DocView;
use crate::resolve::{
    spec_title, resolve_title, spec_site, resolve_site_title, spec_authors, resolve_authors,
    spec_description, resolve_description, spec_thumbnail, resolve_thumbnail,
};
use crate::strops::{spec_lex_le, str_le, lemma_lex_total, lemma_lex_trans};
use crate::text::views_of;
use crate::urls::opt_view;

verus! {

/// Whether readability's extraction succeeds on the document.
pub uninterp spec fn readable_ok(html: Seq<char>, url: Seq<char>) -> bool;

/// The main body text readability extracts from the document; a
/// function of the page text and its URL alone.
pub uninterp spec fn readable_text(html: Seq<char>, url: Seq<char>) -> Seq<char>;

/// Relies on `readability::extractor::extract` (with `url::Url::parse`
/// for the base): the extracted main content of the page, where
/// extraction succeeds.
#[verifier::external_body]
fn extract_full_text(html: &str, url: &str) -> (r: Option<String>)
    ensures
        r is Some <==> readable_ok(html@, url@),
        r matches Some(t) ==> t@ == readable_text(html@, url@),
{
    let base = match url::Url::parse(url) {
        Ok(b) => b,
        Err(_) => return None,
    };
    let mut bytes = html.as_bytes();
    readability::extractor::extract(&mut bytes, &base).ok().map(|p| p.content)
}

/// Relies on `uuid::Uuid::new_v4` and its string form: a freshly drawn
/// random identifier; nothing is promised of its value.
#[verifier::external_body]
fn fresh_id() -> String {
    uuid::Uuid::new_v4().to_string()
}

/// A single bookmark entry: the resolved metadata record. Immutable
/// once built; the empty string stands for "not found" in the two
/// title fields, while description and thumbnail are plainly optional.
pub struct Entry {
    pub id: String,
    pub url: String,
    pub page_title: String,
    pub site_title: String,
    pub authors: AuthorSet,
    pub description: Option<String>,
    pub thumbnail: Option<String>,
    pub full_text: String,
}

impl Entry {
    /// Builds the record from the page text, its scan view and the
    /// secondary fetch results: every field comes out of its
    /// resolver's chain, and the caller-supplied title, where given,
    /// bypasses the title resolver. The scan view must be the scan of
    /// the page text itself, so the record is about this page. The
    /// manifest and oEmbed bodies are what the request functions asked
    /// the caller to fetch; `None` stands for "nothing to fetch or
    /// fetch failed" and is a soft miss.
    pub fn from_parts(
        id: String,
        url: &String,
        page_title: Option<String>,
        html: &str,
        d: &DocView,
        site_manifest_body: &Option<String>,
        description_manifest_body: &Option<String>,
        oembed_body: &Option<String>,
    ) -> (e: Entry)
        requires
            d.is_scan_of(html@),
        ensures
            e.id@ == id@,
            e.url@ == url@,
            e.page_title@ == spec_title(*d, opt_view(page_title)),
            e.site_title@ == spec_site(*d, opt_view(*site_manifest_body), url@),
            e.authors.wf(),
            e.authors.names() == spec_authors(*d),
            opt_view(e.description) == spec_description(
                *d,
                opt_view(*description_manifest_body),
            ),
            opt_view(e.thumbnail) == spec_thumbnail(*d, url@, opt_view(*oembed_body)),
            e.full_text@ == if readable_ok(html@, url@) {
                readable_text(html@, url@)
            } else {
                Seq::<char>::empty()
            },
    {
        let full_text = match extract_full_text(html, url.as_str()) {
            Some(t) => t,
            None => String::new(),
        };
        let page_title = resolve_title(d, page_title);
        let site_title = resolve_site_title(d, site_manifest_body, url.as_str());
        let authors = resolve_authors(d);
        let description = resolve_description(d, description_manifest_body);
        let thumbnail = resolve_thumbnail(d, url.as_str(), oembed_body);
        Entry { id, url: url.clone(), page_title, site_title, authors, description, thumbnail, full_text }
    }

    /// Scans the page and builds the record from it, with a freshly
    /// assigned identifier: the entry assembler over one fetched page.
    /// Every field is tied, through the scan view of the page text, to
    /// its resolver's chain.
    pub fn assemble(
        url: &String,
        page_title: Option<String>,
        html: &str,
        site_manifest_body: &Option<String>,
        description_manifest_body: &Option<String>,
        oembed_body: &Option<String>,
    ) -> (e: Entry)
        ensures
            e.url@ == url@,
            e.authors.wf(),
            exists|d: DocView|
                {
                    &&& #[trigger] d.is_scan_of(html@)
                    &&& e.page_title@ == spec_title(d, opt_view(page_title))
                    &&& e.site_title@ == spec_site(d, opt_view(*site_manifest_body), url@)
                    &&& e.authors.names() == spec_authors(d)
                    &&& opt_view(e.description) == spec_description(
                        d,
                        opt_view(*description_manifest_body),
                    )
                    &&& opt_view(e.thumbnail) == spec_thumbnail(d, url@, opt_view(*oembed_body))
                },
            e.full_text@ == if readable_ok(html@, url@) {
                readable_text(html@, url@)
            } else {
                Seq::<char>::empty()
            },
    {
        let d = crate::doc::scan_html(html);
        let id = fresh_id();
        let e = Entry::from_parts(
            id,
            url,
            page_title,
            html,
            &d,
            site_manifest_body,
            description_manifest_body,
            oembed_body,
        );
        proof {
            assert(d.is_scan_of(html@));
        }
        e
    }
}

/// Whether a list of names is sorted in the lexicographic order.
pub open spec fn sorted_le(s: Seq<Seq<char>>) -> bool {
    forall|i: int, j: int| 0 <= i <= j < s.len() ==> #[trigger] spec_lex_le(s[i], s[j])
}

/// Inserting into a sequence inserts into its multiset.
proof fn lemma_insert_to_multiset<A>(s: Seq<A>, i: int, x: A)
    requires
        0 <= i <= s.len(),
    ensures
        s.insert(i, x).to_multiset() =~= s.to_multiset().insert(x),
{
    broadcast use vstd::seq_lib::group_to_multiset_ensures;
    broadcast use vstd::multiset::group_multiset_axioms;

    let t = s.insert(i, x);
    assert(t.remove(i) =~= s);
    assert(t[i] == x);
    assert(t.remove(i).to_multiset() =~= t.to_multiset().remove(t[i]));
    assert(t.contains(x));
    assert(t.to_multiset().count(x) > 0);
    assert forall|y: A| t.to_multiset().count(y) == s.to_multiset().insert(x).count(y) by {
        if y == x {
            assert(s.to_multiset().count(x) == t.to_multiset().remove(x).count(x));
        } else {
            assert(s.to_multiset().count(y) == t.to_multiset().remove(x).count(y));
        }
    }
}

/// Inserts a name into a sorted list, keeping it sorted.
fn sorted_insert(v: &mut Vec<String>, x: String)
    requires
        sorted_le(views_of(old(v)@)),
    ensures
        sorted_le(views_of(final(v)@)),
        views_of(final(v)@).to_multiset() == views_of(old(v)@).to_multiset().insert(x@),
{
    let n = v.len();
    let mut idx: usize = 0;
    while idx < n && str_le(v[idx].as_str(), x.as_str())
        invariant
            idx <= n,
            n == v@.len(),
            forall|j: int| 0 <= j < idx ==> spec_lex_le(#[trigger] views_of(v@)[j], x@),
        decreases n - idx,
    {
        proof {
            assert(views_of(v@)[idx as int] == v@[idx as int]@);
        }
        idx += 1;
    }
    proof {
        let vs = views_of(v@);
        if idx < n {
            assert(!spec_lex_le(vs[idx as int], x@)) by {
                assert(vs[idx as int] == v@[idx as int]@);
            }
            lemma_lex_total(vs[idx as int], x@);
        }
    }
    let ghost pre = views_of(v@);
    v.insert(idx, x);
    proof {
        let vs = views_of(v@);
        assert(vs =~= pre.insert(idx as int, x@));
        lemma_insert_to_multiset(pre, idx as int, x@);
        assert(vs.to_multiset() =~= pre.to_multiset().insert(x@));
        assert forall|i: int, j: int| 0 <= i <= j < vs.len() implies #[trigger] spec_lex_le(
            vs[i],
            vs[j],
        ) by {
            let gi = if i < idx {
                pre[i]
            } else if i == idx {
                x@
            } else {
                pre[i - 1]
            };
            let gj = if j < idx {
                pre[j]
            } else if j == idx {
                x@
            } else {
                pre[j - 1]
            };
            assert(vs[i] == gi);
            assert(vs[j] == gj);
            if i == j {
                crate::strops::lemma_lex_total(gi, gi);
            } else if j < idx || (i > idx) {
                assert(spec_lex_le(gi, gj));
            } else if i < idx && j == idx {
                assert(spec_lex_le(pre[i], x@));
            } else if i < idx && j > idx {
                assert(spec_lex_le(gi, gj));
            } else if i == idx && j > idx {
                if idx < pre.len() {
                    assert(spec_lex_le(x@, pre[idx as int]));
                    assert(spec_lex_le(pre[idx as int], pre[j - 1]));
                    lemma_lex_trans(x@, pre[idx as int], pre[j - 1]);
                }
            }
        }
    }
}

/// Sorts a list of names in the lexicographic order.
fn sort_names(items: &Vec<String>) -> (r: Vec<String>)
    ensures
        sorted_le(views_of(r@)),
        views_of(r@).to_multiset() == views_of(items@).to_multiset(),
{
    broadcast use vstd::seq_lib::group_to_multiset_ensures;

    let mut out: Vec<String> = Vec::new();
    let n = items.len();
    let mut i: usize = 0;
    proof {
        assert(views_of(out@) =~= Seq::<Seq<char>>::empty());
        assert(views_of(items@.take(0)) =~= Seq::<Seq<char>>::empty());
    }
    while i < n
        invariant
            i <= n,
            n == items@.len(),
            sorted_le(views_of(out@)),
            views_of(out@).to_multiset() == views_of(items@.take(i as int)).to_multiset(),
        decreases n - i,
    {
        broadcast use vstd::seq_lib::group_to_multiset_ensures;

        sorted_insert(&mut out, items[i].clone());
        proof {
            assert(views_of(items@.take(i as int + 1)) =~= views_of(items@.take(i as int)).push(
                items@[i as int]@,
            ));
        }
        i += 1;
    }
    proof {
        assert(items@.take(n as int) =~= items@);
    }
    out
}

/// The serialized shape of an entry, as the output layer presents it:
/// the author list sorted, the primary author its lexicographically
/// smallest member.
pub struct EntryView {
    pub title: String,
    pub site: String,
    pub author: Option<String>,
    pub authors: Vec<String>,
    pub url: String,
    pub id: String,
    pub description: Option<String>,
    pub thumbnail: Option<String>,
    pub full_text: String,
}

fn clone_opt(o: &Option<String>) -> (r: Option<String>)
    ensures
        opt_view(r) == opt_view(*o),
{
    match o {
        Some(s) => Some(s.clone()),
        None => None,
    }
}

impl EntryView {
    /// Builds the serialized view of an entry: field for field, with
    /// the author set laid out as a sorted, duplicate-free list whose
    /// first member — the lexicographically smallest — is the primary
    /// author.
    pub fn from_entry(e: &Entry) -> (v: EntryView)
        requires
            e.authors.wf(),
        ensures
            v.title@ == e.page_title@,
            v.site@ == e.site_title@,
            v.url@ == e.url@,
            v.id@ == e.id@,
            opt_view(v.description) == opt_view(e.description),
            opt_view(v.thumbnail) == opt_view(e.thumbnail),
            v.full_text@ == e.full_text@,
            sorted_le(views_of(v.authors@)),
            views_of(v.authors@).no_duplicates(),
            views_of(v.authors@).to_set() == e.authors.names(),
            v.authors@.len() == e.authors.items@.len(),
            opt_view(v.author) == if v.authors@.len() > 0 {
                Some(views_of(v.authors@)[0])
            } else {
                None::<Seq<char>>
            },
            forall|x: Seq<char>|
                v.authors@.len() > 0 && e.authors.names().contains(x) ==> spec_lex_le(
                    views_of(v.authors@)[0],
                    x,
                ),
    {
        broadcast use vstd::seq_lib::group_to_multiset_ensures;

        let sorted = sort_names(&e.authors.items);
        proof {
            let pre = views_of(e.authors.items@);
            let vs = views_of(sorted@);
            assert(pre.no_duplicates()) by {
                assert(forall|i: int, j: int|
                    0 <= i < j < pre.len() ==> #[trigger] pre[i] != #[trigger] pre[j]);
            }
            pre.lemma_multiset_has_no_duplicates();
            assert(forall|x: Seq<char>|
                vs.to_multiset().contains(x) ==> #[trigger] vs.to_multiset().count(x) == 1);
            vs.lemma_multiset_has_no_duplicates_conv();
            assert forall|x: Seq<char>| vs.contains(x) <==> pre.contains(x) by {
                assert(vs.contains(x) <==> vs.to_multiset().count(x) > 0);
                assert(pre.contains(x) <==> pre.to_multiset().count(x) > 0);
            }
            assert(vs.to_set() =~= pre.to_set());
            assert(vs.len() == pre.len()) by {
                assert(vs.len() == vs.to_multiset().len());
                assert(pre.len() == pre.to_multiset().len());
            }
        }
        let author = if sorted.len() > 0 {
            Some(sorted[0].clone())
        } else {
            None
        };
        proof {
            let vs = views_of(sorted@);
            assert forall|x: Seq<char>|
                sorted@.len() > 0 && e.authors.names().contains(x) implies spec_lex_le(
                vs[0],
                x,
            ) by {
                assert(vs.to_set().contains(x));
                let j = choose|j: int| 0 <= j < vs.len() && vs[j] == x;
                assert(spec_lex_le(vs[0], vs[j]));
            }
        }
        EntryView {
            title: e.page_title.clone(),
            site: e.site_title.clone(),
            author,
            authors: sorted,
            url: e.url.clone(),
            id: e.id.clone(),
            description: clone_opt(&e.description),
            thumbnail: clone_opt(&e.thumbnail),
            full_text: e.full_text.clone(),
        }
    }
}

} // verus!
