//! The field resolvers: one fixed, hand-ordered strategy list per
//! logical field (title, site name, authors, description, thumbnail),
//! evaluated left to right; the first success wins. Success is a
//! normalized non-empty string, a non-empty author set, or a
//! successfully absolutized URL. The two strategies that need a
//! secondary fetch (web-app manifest, oEmbed) are split: a request
//! function says what to fetch, and the resolver takes the fetched body
//! as an argument, treating a missing body as a soft miss.

use vstd::prelude::*;
use vstd::string::StrSliceExecFns;
use vstd::string::StringExecFns;
use crate::doc::{DocView, QElem};
use crate::json::{Json, json_of, json_parse_ok, parse_json, obj_get};
use crate::jsonld::{
    spec_texts, collect_schema_texts, spec_site_names, collect_schema_site_names,
    spec_schema_authors, collect_schema_authors, spec_primary_images, collect_primary_image,
    spec_generic_images, collect_generic_image,
};
use crate::pick::{
    spec_first_text, first_text, spec_first_attr, first_attr, spec_first_meta, first_meta,
    spec_first_meta_ci, first_meta_ci,
};
use crate::text::{spec_normalize, collapse_ws, views_of};
use crate::urls::{spec_absolutise, absolutise, opt_view};
use crate::authors::AuthorSet;

verus! {

/// The first of two optional candidates.
pub open spec fn or_opt(a: Option<Seq<char>>, b: Option<Seq<char>>) -> Option<Seq<char>> {
    if a is Some {
        a
    } else {
        b
    }
}

/// The text-family candidates of one script block: the walk over its
/// parsed JSON, or nothing where the block is not valid JSON.
pub open spec fn block_texts(b: QElem, keys: Seq<Seq<char>>) -> Seq<Seq<char>> {
    if json_parse_ok(b.text@) {
        spec_texts(json_of(b.text@), keys)
    } else {
        Seq::empty()
    }
}

/// The text-family candidates of every script block, in document order.
pub open spec fn blocks_texts(bs: Seq<QElem>, keys: Seq<Seq<char>>) -> Seq<Seq<char>>
    decreases bs.len(),
{
    if bs.len() == 0 {
        Seq::empty()
    } else {
        block_texts(bs[0], keys) + blocks_texts(bs.drop_first(), keys)
    }
}

/// The first candidate whose normalized form is non-empty.
pub open spec fn first_nonempty_norm(cs: Seq<Seq<char>>) -> Option<Seq<char>>
    decreases cs.len(),
{
    if cs.len() == 0 {
        None
    } else if spec_normalize(cs[0]).len() > 0 {
        Some(spec_normalize(cs[0]))
    } else {
        first_nonempty_norm(cs.drop_first())
    }
}

/// Gathers the text-family candidates of every JSON-LD block.
fn gather_block_texts(bs: &Vec<QElem>, keys: &Vec<String>) -> (r: Vec<String>)
    ensures
        views_of(r@) == blocks_texts(bs@, views_of(keys@)),
{
    let ghost gkeys = views_of(keys@);
    let mut cands: Vec<String> = Vec::new();
    let len = bs.len();
    let mut i: usize = 0;
    proof {
        assert(bs@.skip(0) =~= bs@);
        assert(views_of(cands@) =~= Seq::<Seq<char>>::empty());
    }
    while i < len
        invariant
            i <= len,
            len == bs@.len(),
            gkeys == views_of(keys@),
            views_of(cands@) + blocks_texts(bs@.skip(i as int), gkeys) == blocks_texts(
                bs@,
                gkeys,
            ),
        decreases len - i,
    {
        proof {
            let t = bs@.skip(i as int);
            assert(t[0] == bs@[i as int]);
            assert(t.drop_first() =~= bs@.skip(i as int + 1));
        }
        match parse_json(bs[i].text.as_str()) {
            Some(j) => {
                collect_schema_texts(&j, keys, &mut cands);
            },
            None => {},
        }
        proof {
            assert(views_of(cands@) + blocks_texts(bs@.skip(i as int + 1), gkeys) =~= blocks_texts(
                bs@,
                gkeys,
            ));
        }
        i += 1;
    }
    proof {
        assert(bs@.skip(len as int) =~= Seq::<QElem>::empty());
        assert(views_of(cands@) =~= views_of(cands@) + blocks_texts(bs@.skip(len as int), gkeys));
    }
    cands
}

/// The first normalized non-empty candidate of a gathered list.
fn pick_first_norm(cands: &Vec<String>) -> (r: Option<String>)
    ensures
        opt_view(r) == first_nonempty_norm(views_of(cands@)),
{
    let len = cands.len();
    let mut i: usize = 0;
    proof {
        assert(views_of(cands@).skip(0) =~= views_of(cands@));
    }
    while i < len
        invariant
            i <= len,
            len == cands@.len(),
            first_nonempty_norm(views_of(cands@)) == first_nonempty_norm(
                views_of(cands@).skip(i as int),
            ),
        decreases len - i,
    {
        proof {
            let t = views_of(cands@).skip(i as int);
            assert(t[0] == views_of(cands@)[i as int]);
            assert(t.drop_first() =~= views_of(cands@).skip(i as int + 1));
        }
        let v = collapse_ws(cands[i].as_str());
        if v.as_str().unicode_len() > 0 {
            return Some(v);
        }
        i += 1;
    }
    None
}

/// The first JSON-LD candidate of a text family, normalized.
fn json_ld_first(bs: &Vec<QElem>, keys: &Vec<String>) -> (r: Option<String>)
    ensures
        opt_view(r) == first_nonempty_norm(blocks_texts(bs@, views_of(keys@))),
{
    let cands = gather_block_texts(bs, keys);
    pick_first_norm(&cands)
}

/// The property keys of the title family.
pub open spec fn title_keys() -> Seq<Seq<char>> {
    seq!["headline"@, "name"@, "alternativeHeadline"@]
}

fn title_keys_vec() -> (r: Vec<String>)
    ensures
        views_of(r@) == title_keys(),
{
    let mut v: Vec<String> = Vec::new();
    v.push(String::from_str("headline"));
    v.push(String::from_str("name"));
    v.push(String::from_str("alternativeHeadline"));
    proof {
        assert(views_of(v@) =~= title_keys());
    }
    v
}

/// The Dublin Core names of the title family.
pub open spec fn dc_title_names() -> Seq<Seq<char>> {
    seq!["dc.title"@, "dcterms.title"@]
}

fn dc_title_names_vec() -> (r: Vec<String>)
    ensures
        views_of(r@) == dc_title_names(),
{
    let mut v: Vec<String> = Vec::new();
    v.push(String::from_str("dc.title"));
    v.push(String::from_str("dcterms.title"));
    proof {
        assert(views_of(v@) =~= dc_title_names());
    }
    v
}

/// The title fallback chain: document `<title>`, OpenGraph, Twitter
/// Cards, JSON-LD, Microdata `headline`/`name` (attribute then text),
/// microformats2, RDFa (attribute then text), Dublin Core.
pub open spec fn spec_title_chain(d: DocView) -> Option<Seq<char>> {
    or_opt(
        spec_first_text(d.title_el@),
        or_opt(
            spec_first_meta(d.head_metas@, 1, "og:title"@),
            or_opt(
                spec_first_meta(d.head_metas@, 0, "twitter:title"@),
                or_opt(
                    first_nonempty_norm(blocks_texts(d.ld_blocks@, title_keys())),
                    or_opt(
                        spec_first_attr(d.itemprop_headline@, 0),
                        or_opt(
                            spec_first_text(d.itemprop_headline@),
                            or_opt(
                                spec_first_attr(d.itemprop_name@, 0),
                                or_opt(
                                    spec_first_text(d.itemprop_name@),
                                    or_opt(
                                        spec_first_text(d.hentry_pname@),
                                        or_opt(
                                            spec_first_text(d.pname@),
                                            or_opt(
                                                spec_first_text(d.hentry_entry_title@),
                                                or_opt(
                                                    spec_first_attr(d.prop_schema_headline@, 0),
                                                    or_opt(
                                                        spec_first_text(d.prop_schema_headline@),
                                                        or_opt(
                                                            spec_first_attr(
                                                                d.prop_schema_name@,
                                                                0,
                                                            ),
                                                            or_opt(
                                                                spec_first_text(
                                                                    d.prop_schema_name@,
                                                                ),
                                                                or_opt(
                                                                    spec_first_attr(
                                                                        d.prop_dcterms_title@,
                                                                        0,
                                                                    ),
                                                                    or_opt(
                                                                        spec_first_text(
                                                                            d.prop_dcterms_title@,
                                                                        ),
                                                                        spec_first_meta_ci(
                                                                            d.head_metas@,
                                                                            dc_title_names(),
                                                                        ),
                                                                    ),
                                                                ),
                                                            ),
                                                        ),
                                                    ),
                                                ),
                                            ),
                                        ),
                                    ),
                                ),
                            ),
                        ),
                    ),
                ),
            ),
        ),
    )
}

/// The page title: a caller-supplied title short-circuits the whole
/// chain; otherwise the first successful strategy's value; the empty
/// string where every strategy misses.
pub open spec fn spec_title(d: DocView, user: Option<Seq<char>>) -> Seq<char> {
    match user {
        Some(t) => t,
        None => match spec_title_chain(d) {
            Some(t) => t,
            None => Seq::empty(),
        },
    }
}

/// Resolves the page title.
pub fn resolve_title(d: &DocView, user: Option<String>) -> (r: String)
    requires
        d.wf(),
    ensures
        r@ == spec_title(*d, opt_view(user)),
{
    match user {
        Some(t) => t,
        None => {
            if let Some(t) = first_text(&d.title_el) {
                return t;
            }
            if let Some(t) = first_meta(&d.head_metas, 1, "og:title") {
                return t;
            }
            if let Some(t) = first_meta(&d.head_metas, 0, "twitter:title") {
                return t;
            }
            if let Some(t) = json_ld_first(&d.ld_blocks, &title_keys_vec()) {
                return t;
            }
            if let Some(t) = first_attr(&d.itemprop_headline, 0, 1) {
                return t;
            }
            if let Some(t) = first_text(&d.itemprop_headline) {
                return t;
            }
            if let Some(t) = first_attr(&d.itemprop_name, 0, 1) {
                return t;
            }
            if let Some(t) = first_text(&d.itemprop_name) {
                return t;
            }
            if let Some(t) = first_text(&d.hentry_pname) {
                return t;
            }
            if let Some(t) = first_text(&d.pname) {
                return t;
            }
            if let Some(t) = first_text(&d.hentry_entry_title) {
                return t;
            }
            if let Some(t) = first_attr(&d.prop_schema_headline, 0, 1) {
                return t;
            }
            if let Some(t) = first_text(&d.prop_schema_headline) {
                return t;
            }
            if let Some(t) = first_attr(&d.prop_schema_name, 0, 1) {
                return t;
            }
            if let Some(t) = first_text(&d.prop_schema_name) {
                return t;
            }
            if let Some(t) = first_attr(&d.prop_dcterms_title, 0, 1) {
                return t;
            }
            if let Some(t) = first_text(&d.prop_dcterms_title) {
                return t;
            }
            match first_meta_ci(&d.head_metas, &dc_title_names_vec()) {
                Some(t) => t,
                None => String::new(),
            }
        },
    }
}

/// The raw `href` of the first `link` whose `rel` list holds the word
/// `manifest` and which carries an `href` at all.
pub open spec fn spec_manifest_href(links: Seq<QElem>) -> Option<Seq<char>>
    decreases links.len(),
{
    if links.len() == 0 {
        None
    } else {
        let is_manifest = match links[0].attrs@[0] {
            Some(r) => crate::strops::spec_has_word(r@, "manifest"@),
            None => false,
        };
        if is_manifest && links[0].attrs@[1] is Some {
            Some(links[0].attrs@[1]->Some_0@)
        } else {
            spec_manifest_href(links.drop_first())
        }
    }
}

/// The raw `href` of the first manifest link.
fn manifest_href(links: &Vec<QElem>) -> (r: Option<String>)
    requires
        crate::doc::elems_wf(links@, 4),
    ensures
        opt_view(r) == spec_manifest_href(links@),
{
    let len = links.len();
    let mut i: usize = 0;
    proof {
        assert(links@.skip(0) =~= links@);
    }
    while i < len
        invariant
            i <= len,
            len == links@.len(),
            crate::doc::elems_wf(links@, 4),
            spec_manifest_href(links@) == spec_manifest_href(links@.skip(i as int)),
        decreases len - i,
    {
        proof {
            let t = links@.skip(i as int);
            assert(t[0] == links@[i as int]);
            assert(t.drop_first() =~= links@.skip(i as int + 1));
        }
        let is_manifest = match &links[i].attrs[0] {
            Some(r) => crate::strops::has_word(r.as_str(), "manifest"),
            None => false,
        };
        if is_manifest {
            match &links[i].attrs[1] {
                Some(h) => {
                    return Some(h.clone());
                },
                None => {},
            }
        }
        i += 1;
    }
    None
}

/// The normalized string a manifest member yields, empty where the
/// member is absent or not a string.
pub open spec fn manifest_member_norm(m: Seq<(String, Json)>, k: Seq<char>) -> Seq<char> {
    match obj_get(m, k) {
        Some(Json::Text(s)) => spec_normalize(s@),
        _ => Seq::empty(),
    }
}

/// The site name a fetched manifest body yields: its normalized `name`
/// member where that is non-empty, else its normalized `short_name`;
/// nothing where the body is absent, not valid JSON, not an object, or
/// holds neither.
pub open spec fn manifest_site_value(body: Option<Seq<char>>) -> Option<Seq<char>> {
    match body {
        Some(text) => if json_parse_ok(text) {
            match json_of(text) {
                Json::Object(m) => if manifest_member_norm(m@, "name"@).len() > 0 {
                    Some(manifest_member_norm(m@, "name"@))
                } else if manifest_member_norm(m@, "short_name"@).len() > 0 {
                    Some(manifest_member_norm(m@, "short_name"@))
                } else {
                    None
                },
                _ => None,
            }
        } else {
            None
        },
        None => None,
    }
}

fn manifest_member(m: &Vec<(String, Json)>, k: &str) -> (r: String)
    ensures
        r@ == manifest_member_norm(m@, k@),
{
    match crate::json::json_get(m, k) {
        Some(Json::Text(s)) => collapse_ws(s.as_str()),
        _ => String::new(),
    }
}

/// Reads the site name out of a fetched manifest body.
fn manifest_site_name(body: &Option<String>) -> (r: Option<String>)
    ensures
        opt_view(r) == manifest_site_value(opt_view(*body)),
{
    match body {
        Some(text) => {
            match parse_json(text.as_str()) {
                Some(Json::Object(m)) => {
                    let name = manifest_member(&m, "name");
                    if name.as_str().unicode_len() > 0 {
                        return Some(name);
                    }
                    let short = manifest_member(&m, "short_name");
                    if short.as_str().unicode_len() > 0 {
                        return Some(short);
                    }
                    None
                },
                _ => None,
            }
        },
        None => None,
    }
}

/// The description a fetched manifest body yields: its `description`
/// member, normalized, where it is a non-empty string.
pub open spec fn manifest_description_value(body: Option<Seq<char>>) -> Option<Seq<char>> {
    match body {
        Some(text) => if json_parse_ok(text) {
            match json_of(text) {
                Json::Object(m) => match obj_get(m@, "description"@) {
                    Some(Json::Text(s)) => if spec_normalize(s@).len() > 0 {
                        Some(spec_normalize(s@))
                    } else {
                        None
                    },
                    _ => None,
                },
                _ => None,
            }
        } else {
            None
        },
        None => None,
    }
}

/// Reads the description out of a fetched manifest body.
fn manifest_description(body: &Option<String>) -> (r: Option<String>)
    ensures
        opt_view(r) == manifest_description_value(opt_view(*body)),
{
    match body {
        Some(text) => {
            match parse_json(text.as_str()) {
                Some(Json::Object(m)) => {
                    match crate::json::json_get(&m, "description") {
                        Some(Json::Text(s)) => {
                            let v = collapse_ws(s.as_str());
                            if v.as_str().unicode_len() > 0 {
                                Some(v)
                            } else {
                                None
                            }
                        },
                        _ => None,
                    }
                },
                _ => None,
            }
        },
        None => None,
    }
}

/// The JSON-LD part of the site-name search: the walker's candidates,
/// first normalized non-empty one.
pub open spec fn blocks_sites(bs: Seq<QElem>) -> Seq<Seq<char>>
    decreases bs.len(),
{
    if bs.len() == 0 {
        Seq::empty()
    } else {
        let part = if json_parse_ok(bs[0].text@) {
            spec_site_names(json_of(bs[0].text@))
        } else {
            Seq::<Seq<char>>::empty()
        };
        part + blocks_sites(bs.drop_first())
    }
}

fn gather_block_sites(bs: &Vec<QElem>) -> (r: Vec<String>)
    ensures
        views_of(r@) == blocks_sites(bs@),
{
    let mut cands: Vec<String> = Vec::new();
    let len = bs.len();
    let mut i: usize = 0;
    proof {
        assert(bs@.skip(0) =~= bs@);
        assert(views_of(cands@) =~= Seq::<Seq<char>>::empty());
    }
    while i < len
        invariant
            i <= len,
            len == bs@.len(),
            views_of(cands@) + blocks_sites(bs@.skip(i as int)) == blocks_sites(bs@),
        decreases len - i,
    {
        proof {
            let t = bs@.skip(i as int);
            assert(t[0] == bs@[i as int]);
            assert(t.drop_first() =~= bs@.skip(i as int + 1));
        }
        match parse_json(bs[i].text.as_str()) {
            Some(j) => {
                collect_schema_site_names(&j, &mut cands);
            },
            None => {},
        }
        proof {
            assert(views_of(cands@) + blocks_sites(bs@.skip(i as int + 1)) =~= blocks_sites(bs@));
        }
        i += 1;
    }
    proof {
        assert(bs@.skip(len as int) =~= Seq::<QElem>::empty());
        assert(views_of(cands@) =~= views_of(cands@) + blocks_sites(bs@.skip(len as int)));
    }
    cands
}

/// The structured-data part of the site-name search: JSON-LD
/// candidates, else the Microdata `WebSite`/`Organization` names, else
/// RDFa `schema:name` (attribute then text at each step).
pub open spec fn spec_schema_site_chain(d: DocView) -> Option<Seq<char>> {
    or_opt(
        first_nonempty_norm(blocks_sites(d.ld_blocks@)),
        or_opt(
            spec_first_attr(d.website_names@, 0),
            or_opt(
                spec_first_text(d.website_names@),
                or_opt(
                    spec_first_attr(d.org_names@, 0),
                    or_opt(
                        spec_first_text(d.org_names@),
                        or_opt(
                            spec_first_attr(d.prop_schema_name@, 0),
                            spec_first_text(d.prop_schema_name@),
                        ),
                    ),
                ),
            ),
        ),
    )
}

/// The site-name fallback chain: OpenGraph `og:site_name`, the web-app
/// manifest's name, the structured-data names, the microformats2
/// h-card, `application-name`, and the page URL's host as last resort.
pub open spec fn spec_site_chain(
    d: DocView,
    manifest_body: Option<Seq<char>>,
    url: Seq<char>,
) -> Option<Seq<char>> {
    or_opt(
        spec_first_meta(d.head_metas@, 1, "og:site_name"@),
        or_opt(
            manifest_site_value(manifest_body),
            or_opt(
                spec_schema_site_chain(d),
                or_opt(
                    spec_first_text(d.hcard_pname@),
                    or_opt(
                        spec_first_text(d.pname@),
                        or_opt(
                            spec_first_meta(d.head_metas@, 0, "application-name"@),
                            if crate::urls::url_host_ok(url) {
                                Some(crate::urls::url_host(url))
                            } else {
                                None
                            },
                        ),
                    ),
                ),
            ),
        ),
    )
}

/// Fallback ordering of the site-name resolver: where the document
/// carries a non-empty `og:site_name`, that value wins, whatever the
/// manifest, the structured data (JSON-LD `WebSite.name` included) or
/// any later strategy would say.
pub proof fn lemma_og_site_name_wins(
    d: DocView,
    manifest_body: Option<Seq<char>>,
    url: Seq<char>,
    v: Seq<char>,
)
    requires
        spec_first_meta(d.head_metas@, 1, "og:site_name"@) == Some(v),
    ensures
        spec_site(d, manifest_body, url) == v,
{
}

/// A failed (or absent) manifest fetch is a soft miss: with no manifest
/// body, site-name resolution is exactly the chain without the
/// manifest strategy, and the extraction never aborts.
pub proof fn lemma_site_manifest_miss_falls_through(d: DocView, url: Seq<char>)
    ensures
        spec_site_chain(d, None, url) == or_opt(
            spec_first_meta(d.head_metas@, 1, "og:site_name"@),
            or_opt(
                spec_schema_site_chain(d),
                or_opt(
                    spec_first_text(d.hcard_pname@),
                    or_opt(
                        spec_first_text(d.pname@),
                        or_opt(
                            spec_first_meta(d.head_metas@, 0, "application-name"@),
                            if crate::urls::url_host_ok(url) {
                                Some(crate::urls::url_host(url))
                            } else {
                                None
                            },
                        ),
                    ),
                ),
            ),
        ),
{
}

/// The site title: the first successful strategy's value, the empty
/// string where every strategy misses.
pub open spec fn spec_site(d: DocView, manifest_body: Option<Seq<char>>, url: Seq<char>) -> Seq<
    char,
> {
    match spec_site_chain(d, manifest_body, url) {
        Some(t) => t,
        None => Seq::empty(),
    }
}

/// Resolves the site title. `manifest_body` is the fetched web-app
/// manifest where [`site_manifest_request`] asked for one and the fetch
/// succeeded; `None` stands for "no manifest or fetch failed" and is a
/// soft miss.
pub fn resolve_site_title(d: &DocView, manifest_body: &Option<String>, url: &str) -> (r: String)
    requires
        d.wf(),
    ensures
        r@ == spec_site(*d, opt_view(*manifest_body), url@),
{
    if let Some(t) = first_meta(&d.head_metas, 1, "og:site_name") {
        return t;
    }
    if let Some(t) = manifest_site_name(manifest_body) {
        return t;
    }
    let cands = gather_block_sites(&d.ld_blocks);
    if let Some(t) = pick_first_norm(&cands) {
        return t;
    }
    if let Some(t) = first_attr(&d.website_names, 0, 1) {
        return t;
    }
    if let Some(t) = first_text(&d.website_names) {
        return t;
    }
    if let Some(t) = first_attr(&d.org_names, 0, 1) {
        return t;
    }
    if let Some(t) = first_text(&d.org_names) {
        return t;
    }
    if let Some(t) = first_attr(&d.prop_schema_name, 0, 1) {
        return t;
    }
    if let Some(t) = first_text(&d.prop_schema_name) {
        return t;
    }
    if let Some(t) = first_text(&d.hcard_pname) {
        return t;
    }
    if let Some(t) = first_text(&d.pname) {
        return t;
    }
    if let Some(t) = first_meta(&d.head_metas, 0, "application-name") {
        return t;
    }
    match crate::urls::host_of(url) {
        Some(h) => h,
        None => String::new(),
    }
}

/// The manifest URL that site-name resolution would fetch: present
/// exactly where the OpenGraph strategy misses, a manifest link with an
/// `href` exists, and joining that `href` against the base URL
/// succeeds.
pub open spec fn spec_site_manifest_request(d: DocView, base: Seq<char>) -> Option<Seq<char>> {
    if spec_first_meta(d.head_metas@, 1, "og:site_name"@) is Some {
        None
    } else {
        match spec_manifest_href(d.links@) {
            Some(h) => if crate::urls::url_join_ok(base, h) {
                Some(crate::urls::url_join(base, h))
            } else {
                None
            },
            None => None,
        }
    }
}

/// Says whether site-name resolution needs the web-app manifest, and
/// which URL to fetch it from.
pub fn site_manifest_request(d: &DocView, base: &str) -> (r: Option<String>)
    requires
        d.wf(),
    ensures
        opt_view(r) == spec_site_manifest_request(*d, base@),
{
    if let Some(_t) = first_meta(&d.head_metas, 1, "og:site_name") {
        return None;
    }
    match manifest_href(&d.links) {
        Some(h) => crate::urls::join_url(base, h.as_str()),
        None => None,
    }
}

/// The property keys of the description family.
pub open spec fn description_keys() -> Seq<Seq<char>> {
    seq!["description"@, "abstract"@]
}

fn description_keys_vec() -> (r: Vec<String>)
    ensures
        views_of(r@) == description_keys(),
{
    let mut v: Vec<String> = Vec::new();
    v.push(String::from_str("description"));
    v.push(String::from_str("abstract"));
    proof {
        assert(views_of(v@) =~= description_keys());
    }
    v
}

/// The Dublin Core names of the description family.
pub open spec fn dc_description_names() -> Seq<Seq<char>> {
    seq!["dc.description"@, "dcterms.description"@, "dcterms.abstract"@]
}

fn dc_description_names_vec() -> (r: Vec<String>)
    ensures
        views_of(r@) == dc_description_names(),
{
    let mut v: Vec<String> = Vec::new();
    v.push(String::from_str("dc.description"));
    v.push(String::from_str("dcterms.description"));
    v.push(String::from_str("dcterms.abstract"));
    proof {
        assert(views_of(v@) =~= dc_description_names());
    }
    v
}

/// The single meta name of the plain description lookup.
pub open spec fn description_meta_names() -> Seq<Seq<char>> {
    seq!["description"@]
}

fn description_meta_names_vec() -> (r: Vec<String>)
    ensures
        views_of(r@) == description_meta_names(),
{
    let mut v: Vec<String> = Vec::new();
    v.push(String::from_str("description"));
    proof {
        assert(views_of(v@) =~= description_meta_names());
    }
    v
}

/// The description fallback chain without the manifest: `<meta
/// name="description">` (matched case-insensitively), OpenGraph,
/// Twitter Cards, JSON-LD, Microdata/RDFa (attribute then text),
/// microformats2, Dublin Core.
pub open spec fn spec_description_pre_chain(d: DocView) -> Option<Seq<char>> {
    or_opt(
        spec_first_meta_ci(d.head_metas@, description_meta_names()),
        or_opt(
            spec_first_meta(d.head_metas@, 1, "og:description"@),
            or_opt(
                spec_first_meta(d.head_metas@, 0, "twitter:description"@),
                or_opt(
                    first_nonempty_norm(blocks_texts(d.ld_blocks@, description_keys())),
                    or_opt(
                        spec_first_attr(d.itemprop_description@, 0),
                        or_opt(
                            spec_first_text(d.itemprop_description@),
                            or_opt(
                                spec_first_attr(d.itemprop_abstract@, 0),
                                or_opt(
                                    spec_first_text(d.itemprop_abstract@),
                                    or_opt(
                                        spec_first_attr(d.prop_schema_description@, 0),
                                        or_opt(
                                            spec_first_text(d.prop_schema_description@),
                                            or_opt(
                                                spec_first_text(d.hentry_psummary@),
                                                or_opt(
                                                    spec_first_text(d.psummary@),
                                                    spec_first_meta_ci(
                                                        d.head_metas@,
                                                        dc_description_names(),
                                                    ),
                                                ),
                                            ),
                                        ),
                                    ),
                                ),
                            ),
                        ),
                    ),
                ),
            ),
        ),
    )
}

/// The description: the first successful strategy's value, with the
/// manifest's description as the last strategy; absent where all miss.
pub open spec fn spec_description(d: DocView, manifest_body: Option<Seq<char>>) -> Option<
    Seq<char>,
> {
    or_opt(spec_description_pre_chain(d), manifest_description_value(manifest_body))
}

/// Resolves the description. `manifest_body` is the fetched manifest
/// where [`description_manifest_request`] asked for one; `None` is a
/// soft miss.
pub fn resolve_description(d: &DocView, manifest_body: &Option<String>) -> (r: Option<String>)
    requires
        d.wf(),
    ensures
        opt_view(r) == spec_description(*d, opt_view(*manifest_body)),
{
    if let Some(t) = first_meta_ci(&d.head_metas, &description_meta_names_vec()) {
        return Some(t);
    }
    if let Some(t) = first_meta(&d.head_metas, 1, "og:description") {
        return Some(t);
    }
    if let Some(t) = first_meta(&d.head_metas, 0, "twitter:description") {
        return Some(t);
    }
    if let Some(t) = json_ld_first(&d.ld_blocks, &description_keys_vec()) {
        return Some(t);
    }
    if let Some(t) = first_attr(&d.itemprop_description, 0, 1) {
        return Some(t);
    }
    if let Some(t) = first_text(&d.itemprop_description) {
        return Some(t);
    }
    if let Some(t) = first_attr(&d.itemprop_abstract, 0, 1) {
        return Some(t);
    }
    if let Some(t) = first_text(&d.itemprop_abstract) {
        return Some(t);
    }
    if let Some(t) = first_attr(&d.prop_schema_description, 0, 1) {
        return Some(t);
    }
    if let Some(t) = first_text(&d.prop_schema_description) {
        return Some(t);
    }
    if let Some(t) = first_text(&d.hentry_psummary) {
        return Some(t);
    }
    if let Some(t) = first_text(&d.psummary) {
        return Some(t);
    }
    if let Some(t) = first_meta_ci(&d.head_metas, &dc_description_names_vec()) {
        return Some(t);
    }
    manifest_description(manifest_body)
}

/// The manifest URL that description resolution would fetch: present
/// exactly where every earlier description strategy misses, a manifest
/// link with an `href` exists, and the join against the base succeeds.
pub open spec fn spec_description_manifest_request(d: DocView, base: Seq<char>) -> Option<
    Seq<char>,
> {
    if spec_description_pre_chain(d) is Some {
        None
    } else {
        match spec_manifest_href(d.links@) {
            Some(h) => if crate::urls::url_join_ok(base, h) {
                Some(crate::urls::url_join(base, h))
            } else {
                None
            },
            None => None,
        }
    }
}

/// Says whether description resolution needs the web-app manifest, and
/// which URL to fetch it from.
pub fn description_manifest_request(d: &DocView, base: &str) -> (r: Option<String>)
    requires
        d.wf(),
    ensures
        opt_view(r) == spec_description_manifest_request(*d, base@),
{
    let none: Option<String> = None;
    match resolve_description(d, &none) {
        Some(_t) => None,
        None => {
            match manifest_href(&d.links) {
                Some(h) => crate::urls::join_url(base, h.as_str()),
                None => None,
            }
        },
    }
}

/// Whether a set holds anything.
pub open spec fn set_nonempty(s: Set<Seq<char>>) -> bool {
    exists|x: Seq<char>| s.contains(x)
}

/// The author names of every JSON-LD block.
pub open spec fn blocks_authors(bs: Seq<QElem>) -> Set<Seq<char>>
    decreases bs.len(),
{
    if bs.len() == 0 {
        Set::empty()
    } else {
        let part = if json_parse_ok(bs[0].text@) {
            spec_schema_authors(json_of(bs[0].text@))
        } else {
            Set::<Seq<char>>::empty()
        };
        part.union(blocks_authors(bs.drop_first()))
    }
}

fn gather_block_authors(bs: &Vec<QElem>, out: &mut AuthorSet)
    requires
        old(out).wf(),
    ensures
        final(out).wf(),
        final(out).names() == old(out).names().union(blocks_authors(bs@)),
{
    let ghost base = out.names();
    let len = bs.len();
    let mut i: usize = 0;
    proof {
        assert(bs@.skip(0) =~= bs@);
    }
    while i < len
        invariant
            i <= len,
            len == bs@.len(),
            out.wf(),
            out.names().union(blocks_authors(bs@.skip(i as int))) == base.union(
                blocks_authors(bs@),
            ),
        decreases len - i,
    {
        proof {
            let t = bs@.skip(i as int);
            assert(t[0] == bs@[i as int]);
            assert(t.drop_first() =~= bs@.skip(i as int + 1));
        }
        match parse_json(bs[i].text.as_str()) {
            Some(j) => {
                collect_schema_authors(&j, out);
            },
            None => {},
        }
        proof {
            assert(out.names().union(blocks_authors(bs@.skip(i as int + 1))) =~= base.union(
                blocks_authors(bs@),
            ));
        }
        i += 1;
    }
    proof {
        assert(bs@.skip(len as int) =~= Seq::<QElem>::empty());
        assert(out.names() =~= out.names().union(blocks_authors(bs@.skip(len as int))));
        assert(out.names() =~= base.union(blocks_authors(bs@)));
    }
}

/// The Dublin Core names of the creator family.
pub open spec fn dc_creator_names() -> Seq<Seq<char>> {
    seq!["dc.creator"@, "dcterms.creator"@]
}

fn dc_creator_names_vec() -> (r: Vec<String>)
    ensures
        views_of(r@) == dc_creator_names(),
{
    let mut v: Vec<String> = Vec::new();
    v.push(String::from_str("dc.creator"));
    v.push(String::from_str("dcterms.creator"));
    proof {
        assert(views_of(v@) =~= dc_creator_names());
    }
    v
}

/// What each author strategy yields, in chain order.
pub open spec fn author_strategy(d: DocView, k: int) -> Set<Seq<char>> {
    if k == 0 {
        crate::pick::meta_set(d.head_metas@, 0, "author"@, false)
    } else if k == 1 {
        crate::pick::link_author_set(d.anchors@, 1).union(
            crate::pick::link_author_set(d.links@, 3),
        )
    } else if k == 2 {
        blocks_authors(d.ld_blocks@)
    } else if k == 3 {
        crate::pick::microdata_set(d.itemprop_author@)
    } else if k == 4 {
        crate::pick::attr_set(d.prop_schema_author@, 0).union(
            crate::pick::text_set(d.prop_schema_author@),
        ).union(crate::pick::text_set(d.prop_schema_name@))
    } else if k == 5 {
        crate::pick::mf_set(d.mf_hentry_pauthor@).union(crate::pick::mf_set(d.mf_pauthor@)).union(
            crate::pick::mf_set(d.mf_hentry_author@),
        ).union(crate::pick::mf_set(d.mf_author_vcard@))
    } else if k == 6 {
        crate::pick::meta_set(d.head_metas@, 1, "article:author"@, false)
    } else if k == 7 {
        crate::pick::meta_set(d.head_metas@, 0, "twitter:creator"@, true)
    } else if k == 8 {
        crate::pick::meta_set_ci(d.head_metas@, dc_creator_names())
    } else {
        if set_nonempty(crate::pick::text_set(d.article_address@)) {
            crate::pick::text_set(d.article_address@)
        } else if set_nonempty(crate::pick::text_set(d.footer_address@)) {
            crate::pick::text_set(d.footer_address@)
        } else {
            crate::pick::text_set(d.address_els@)
        }
    }
}

/// The author set: strategies are tried in order; within one strategy
/// every match is accumulated, and the first strategy that yields a
/// non-empty set wins.
pub open spec fn spec_authors(d: DocView) -> Set<Seq<char>> {
    if set_nonempty(author_strategy(d, 0)) {
        author_strategy(d, 0)
    } else if set_nonempty(author_strategy(d, 1)) {
        author_strategy(d, 1)
    } else if set_nonempty(author_strategy(d, 2)) {
        author_strategy(d, 2)
    } else if set_nonempty(author_strategy(d, 3)) {
        author_strategy(d, 3)
    } else if set_nonempty(author_strategy(d, 4)) {
        author_strategy(d, 4)
    } else if set_nonempty(author_strategy(d, 5)) {
        author_strategy(d, 5)
    } else if set_nonempty(author_strategy(d, 6)) {
        author_strategy(d, 6)
    } else if set_nonempty(author_strategy(d, 7)) {
        author_strategy(d, 7)
    } else if set_nonempty(author_strategy(d, 8)) {
        author_strategy(d, 8)
    } else {
        author_strategy(d, 9)
    }
}

/// Fallback ordering of the author resolver: the chain falls through
/// to the Twitter `twitter:creator` strategy (each handle stripped of a
/// leading `@`) exactly where every earlier strategy yields nothing.
pub proof fn lemma_twitter_creator_fallback(d: DocView)
    requires
        forall|k: int| 0 <= k < 7 ==> !set_nonempty(#[trigger] author_strategy(d, k)),
        set_nonempty(author_strategy(d, 7)),
    ensures
        spec_authors(d) == author_strategy(d, 7),
{
}

/// The page URL's host is the site-name last resort: where every other
/// strategy misses, the site title is the host, or empty where the URL
/// carries none.
pub proof fn lemma_site_host_last_resort(
    d: DocView,
    manifest_body: Option<Seq<char>>,
    url: Seq<char>,
)
    requires
        spec_first_meta(d.head_metas@, 1, "og:site_name"@) is None,
        manifest_site_value(manifest_body) is None,
        spec_schema_site_chain(d) is None,
        spec_first_text(d.hcard_pname@) is None,
        spec_first_text(d.pname@) is None,
        spec_first_meta(d.head_metas@, 0, "application-name"@) is None,
    ensures
        spec_site(d, manifest_body, url) == if crate::urls::url_host_ok(url) {
            crate::urls::url_host(url)
        } else {
            Seq::<char>::empty()
        },
{
}

proof fn lemma_authorset_empty_or_not(s: AuthorSet)
    requires
        s.wf(),
    ensures
        s.items@.len() == 0 ==> !set_nonempty(s.names()),
        s.items@.len() > 0 ==> set_nonempty(s.names()),
{
    let vs = views_of(s.items@);
    if s.items@.len() == 0 {
        if set_nonempty(s.names()) {
            let x = choose|x: Seq<char>| s.names().contains(x);
            let j = choose|j: int| 0 <= j < vs.len() && vs[j] == x;
            assert(false);
        }
    } else {
        assert(vs[0] == s.items@[0]@);
        assert(vs.contains(vs[0]));
        assert(s.names().contains(vs[0]));
    }
}

/// Resolves the author set.
pub fn resolve_authors(d: &DocView) -> (r: AuthorSet)
    requires
        d.wf(),
    ensures
        r.wf(),
        r.names() == spec_authors(*d),
{
    let mut s0 = AuthorSet::new();
    crate::pick::collect_meta(&d.head_metas, 0, "author", false, &mut s0);
    proof {
        assert(s0.names() =~= author_strategy(*d, 0));
        lemma_authorset_empty_or_not(s0);
    }
    if s0.len() > 0 {
        return s0;
    }
    let mut s1 = AuthorSet::new();
    crate::pick::collect_link_authors(&d.anchors, 1, 2, &mut s1);
    crate::pick::collect_link_authors(&d.links, 3, 4, &mut s1);
    proof {
        assert(s1.names() =~= author_strategy(*d, 1));
        lemma_authorset_empty_or_not(s1);
    }
    if s1.len() > 0 {
        return s1;
    }
    let mut s2 = AuthorSet::new();
    gather_block_authors(&d.ld_blocks, &mut s2);
    proof {
        assert(s2.names() =~= author_strategy(*d, 2));
        lemma_authorset_empty_or_not(s2);
    }
    if s2.len() > 0 {
        return s2;
    }
    let mut s3 = AuthorSet::new();
    crate::pick::collect_microdata(&d.itemprop_author, &mut s3);
    proof {
        assert(s3.names() =~= author_strategy(*d, 3));
        lemma_authorset_empty_or_not(s3);
    }
    if s3.len() > 0 {
        return s3;
    }
    let mut s4 = AuthorSet::new();
    crate::pick::collect_attrs(&d.prop_schema_author, 0, 1, &mut s4);
    crate::pick::collect_texts(&d.prop_schema_author, &mut s4);
    crate::pick::collect_texts(&d.prop_schema_name, &mut s4);
    proof {
        assert(s4.names() =~= author_strategy(*d, 4));
        lemma_authorset_empty_or_not(s4);
    }
    if s4.len() > 0 {
        return s4;
    }
    let mut s5 = AuthorSet::new();
    crate::pick::collect_mf(&d.mf_hentry_pauthor, &mut s5);
    crate::pick::collect_mf(&d.mf_pauthor, &mut s5);
    crate::pick::collect_mf(&d.mf_hentry_author, &mut s5);
    crate::pick::collect_mf(&d.mf_author_vcard, &mut s5);
    proof {
        assert(s5.names() =~= author_strategy(*d, 5));
        lemma_authorset_empty_or_not(s5);
    }
    if s5.len() > 0 {
        return s5;
    }
    let mut s6 = AuthorSet::new();
    crate::pick::collect_meta(&d.head_metas, 1, "article:author", false, &mut s6);
    proof {
        assert(s6.names() =~= author_strategy(*d, 6));
        lemma_authorset_empty_or_not(s6);
    }
    if s6.len() > 0 {
        return s6;
    }
    let mut s7 = AuthorSet::new();
    crate::pick::collect_meta(&d.head_metas, 0, "twitter:creator", true, &mut s7);
    proof {
        assert(s7.names() =~= author_strategy(*d, 7));
        lemma_authorset_empty_or_not(s7);
    }
    if s7.len() > 0 {
        return s7;
    }
    let mut s8 = AuthorSet::new();
    crate::pick::collect_meta_ci(&d.head_metas, &dc_creator_names_vec(), &mut s8);
    proof {
        assert(s8.names() =~= author_strategy(*d, 8));
        lemma_authorset_empty_or_not(s8);
    }
    if s8.len() > 0 {
        return s8;
    }
    let mut s9 = AuthorSet::new();
    crate::pick::collect_texts(&d.article_address, &mut s9);
    proof {
        lemma_authorset_empty_or_not(s9);
    }
    if s9.len() > 0 {
        proof {
            assert(s9.names() =~= author_strategy(*d, 9));
        }
        return s9;
    }
    let mut s9b = AuthorSet::new();
    crate::pick::collect_texts(&d.footer_address, &mut s9b);
    proof {
        assert(s9b.names() =~= crate::pick::text_set(d.footer_address@));
        lemma_authorset_empty_or_not(s9b);
        assert(!set_nonempty(crate::pick::text_set(d.article_address@))) by {
            assert(s9.names() =~= crate::pick::text_set(d.article_address@));
        }
    }
    if s9b.len() > 0 {
        proof {
            assert(s9b.names() =~= author_strategy(*d, 9));
        }
        return s9b;
    }
    let mut s9c = AuthorSet::new();
    crate::pick::collect_texts(&d.address_els, &mut s9c);
    proof {
        assert(s9c.names() =~= crate::pick::text_set(d.address_els@));
        lemma_authorset_empty_or_not(s9c);
        assert(s9c.names() =~= author_strategy(*d, 9));
        lemma_authorset_empty_or_not(s9c);
        assert(s9c.names() =~= spec_authors(*d));
    }
    s9c
}

/// The first of an element's URL-carrying attributes (`content`, `src`,
/// `href`, `data-src`, in that order) whose trimmed value is non-empty.
pub open spec fn elem_url_from(e: QElem, k: int) -> Option<Seq<char>>
    decreases 4 - k,
{
    if k >= 4 {
        None
    } else {
        match e.attrs@[k] {
            Some(v) => if crate::text::spec_trim(v@).len() > 0 {
                Some(crate::text::spec_trim(v@))
            } else {
                elem_url_from(e, k + 1)
            },
            None => elem_url_from(e, k + 1),
        }
    }
}

/// The first match that carries any URL attribute, and that attribute's
/// trimmed value.
pub open spec fn spec_pick_url(es: Seq<QElem>) -> Option<Seq<char>>
    decreases es.len(),
{
    if es.len() == 0 {
        None
    } else {
        match elem_url_from(es[0], 0) {
            Some(u) => Some(u),
            None => spec_pick_url(es.drop_first()),
        }
    }
}

fn elem_url(e: &QElem) -> (r: Option<String>)
    requires
        e.attrs@.len() == 4,
    ensures
        opt_view(r) == elem_url_from(*e, 0),
{
    let mut k: usize = 0;
    while k < 4
        invariant
            k <= 4,
            e.attrs@.len() == 4,
            elem_url_from(*e, 0) == elem_url_from(*e, k as int),
        decreases 4 - k,
    {
        match &e.attrs[k] {
            Some(v) => {
                let t = crate::text::trim_str(v.as_str());
                if t.unicode_len() > 0 {
                    return Some(String::from_str(t));
                }
            },
            None => {},
        }
        k += 1;
    }
    None
}

/// The first URL any match carries in its URL attributes.
fn pick_url(es: &Vec<QElem>) -> (r: Option<String>)
    requires
        crate::doc::elems_wf(es@, 4),
    ensures
        opt_view(r) == spec_pick_url(es@),
{
    let len = es.len();
    let mut i: usize = 0;
    proof {
        assert(es@.skip(0) =~= es@);
    }
    while i < len
        invariant
            i <= len,
            len == es@.len(),
            crate::doc::elems_wf(es@, 4),
            spec_pick_url(es@) == spec_pick_url(es@.skip(i as int)),
        decreases len - i,
    {
        proof {
            let t = es@.skip(i as int);
            assert(t[0] == es@[i as int]);
            assert(t.drop_first() =~= es@.skip(i as int + 1));
        }
        match elem_url(&es[i]) {
            Some(u) => {
                return Some(u);
            },
            None => {},
        }
        i += 1;
    }
    None
}

/// A candidate put through the absolutizer, where there is one.
pub open spec fn abs_opt(base: Seq<char>, cand: Option<Seq<char>>) -> Option<Seq<char>> {
    match cand {
        Some(u) => spec_absolutise(base, u),
        None => None,
    }
}

/// The first candidate of a list that absolutizes.
pub open spec fn first_abs(base: Seq<char>, cs: Seq<Seq<char>>) -> Option<Seq<char>>
    decreases cs.len(),
{
    if cs.len() == 0 {
        None
    } else {
        match spec_absolutise(base, cs[0]) {
            Some(u) => Some(u),
            None => first_abs(base, cs.drop_first()),
        }
    }
}

fn pick_first_abs(base: &str, cands: &Vec<String>) -> (r: Option<String>)
    ensures
        opt_view(r) == first_abs(base@, views_of(cands@)),
{
    let len = cands.len();
    let mut i: usize = 0;
    proof {
        assert(views_of(cands@).skip(0) =~= views_of(cands@));
    }
    while i < len
        invariant
            i <= len,
            len == cands@.len(),
            first_abs(base@, views_of(cands@)) == first_abs(
                base@,
                views_of(cands@).skip(i as int),
            ),
        decreases len - i,
    {
        proof {
            let t = views_of(cands@).skip(i as int);
            assert(t[0] == views_of(cands@)[i as int]);
            assert(t.drop_first() =~= views_of(cands@).skip(i as int + 1));
        }
        match absolutise(base, cands[i].as_str()) {
            Some(u) => {
                return Some(u);
            },
            None => {},
        }
        i += 1;
    }
    None
}

/// The primary-image candidates of every JSON-LD block, in order.
pub open spec fn blocks_primary(bs: Seq<QElem>) -> Seq<Seq<char>>
    decreases bs.len(),
{
    if bs.len() == 0 {
        Seq::empty()
    } else {
        let part = if json_parse_ok(bs[0].text@) {
            spec_primary_images(json_of(bs[0].text@))
        } else {
            Seq::<Seq<char>>::empty()
        };
        part + blocks_primary(bs.drop_first())
    }
}

fn gather_block_primary(bs: &Vec<QElem>) -> (r: Vec<String>)
    ensures
        views_of(r@) == blocks_primary(bs@),
{
    let mut cands: Vec<String> = Vec::new();
    let len = bs.len();
    let mut i: usize = 0;
    proof {
        assert(bs@.skip(0) =~= bs@);
        assert(views_of(cands@) =~= Seq::<Seq<char>>::empty());
    }
    while i < len
        invariant
            i <= len,
            len == bs@.len(),
            views_of(cands@) + blocks_primary(bs@.skip(i as int)) == blocks_primary(bs@),
        decreases len - i,
    {
        proof {
            let t = bs@.skip(i as int);
            assert(t[0] == bs@[i as int]);
            assert(t.drop_first() =~= bs@.skip(i as int + 1));
        }
        match parse_json(bs[i].text.as_str()) {
            Some(j) => {
                collect_primary_image(&j, &mut cands);
            },
            None => {},
        }
        proof {
            assert(views_of(cands@) + blocks_primary(bs@.skip(i as int + 1)) =~= blocks_primary(
                bs@,
            ));
        }
        i += 1;
    }
    proof {
        assert(bs@.skip(len as int) =~= Seq::<QElem>::empty());
        assert(views_of(cands@) =~= views_of(cands@) + blocks_primary(bs@.skip(len as int)));
    }
    cands
}

/// The generic-image candidate list every JSON-LD block folds into, in
/// order, starting from `acc`.
pub open spec fn blocks_generic(bs: Seq<QElem>, acc: Seq<Seq<char>>) -> Seq<Seq<char>>
    decreases bs.len(),
{
    if bs.len() == 0 {
        acc
    } else {
        let acc1 = if json_parse_ok(bs[0].text@) {
            spec_generic_images(json_of(bs[0].text@), acc)
        } else {
            acc
        };
        blocks_generic(bs.drop_first(), acc1)
    }
}

fn gather_block_generic(bs: &Vec<QElem>) -> (r: Vec<String>)
    ensures
        views_of(r@) == blocks_generic(bs@, Seq::empty()),
{
    let mut cands: Vec<String> = Vec::new();
    let len = bs.len();
    let mut i: usize = 0;
    proof {
        assert(bs@.skip(0) =~= bs@);
        assert(views_of(cands@) =~= Seq::<Seq<char>>::empty());
    }
    while i < len
        invariant
            i <= len,
            len == bs@.len(),
            blocks_generic(bs@.skip(i as int), views_of(cands@)) == blocks_generic(
                bs@,
                Seq::empty(),
            ),
        decreases len - i,
    {
        proof {
            let t = bs@.skip(i as int);
            assert(t[0] == bs@[i as int]);
            assert(t.drop_first() =~= bs@.skip(i as int + 1));
        }
        match parse_json(bs[i].text.as_str()) {
            Some(j) => {
                collect_generic_image(&j, &mut cands);
            },
            None => {},
        }
        i += 1;
    }
    proof {
        assert(bs@.skip(len as int) =~= Seq::<QElem>::empty());
        assert(views_of(cands@) == blocks_generic(bs@.skip(len as int), views_of(cands@)));
    }
    cands
}

/// The raw `href` of the first `rel~="alternate"` link that advertises
/// an oEmbed endpoint (`application/json+oembed` or `text/xml+oembed`,
/// matched case-insensitively) and carries an `href`.
pub open spec fn spec_oembed_href(links: Seq<QElem>) -> Option<Seq<char>>
    decreases links.len(),
{
    if links.len() == 0 {
        None
    } else {
        let is_alt = match links[0].attrs@[0] {
            Some(r) => crate::strops::spec_has_word(r@, "alternate"@),
            None => false,
        };
        let is_oembed = match links[0].attrs@[2] {
            Some(t) => crate::strops::eq_ci(t@, "application/json+oembed"@)
                || crate::strops::eq_ci(t@, "text/xml+oembed"@),
            None => false,
        };
        if is_alt && is_oembed && links[0].attrs@[1] is Some {
            Some(links[0].attrs@[1]->Some_0@)
        } else {
            spec_oembed_href(links.drop_first())
        }
    }
}

fn oembed_href(links: &Vec<QElem>) -> (r: Option<String>)
    requires
        crate::doc::elems_wf(links@, 4),
    ensures
        opt_view(r) == spec_oembed_href(links@),
{
    let len = links.len();
    let mut i: usize = 0;
    proof {
        assert(links@.skip(0) =~= links@);
    }
    while i < len
        invariant
            i <= len,
            len == links@.len(),
            crate::doc::elems_wf(links@, 4),
            spec_oembed_href(links@) == spec_oembed_href(links@.skip(i as int)),
        decreases len - i,
    {
        proof {
            let t = links@.skip(i as int);
            assert(t[0] == links@[i as int]);
            assert(t.drop_first() =~= links@.skip(i as int + 1));
        }
        let is_alt = match &links[i].attrs[0] {
            Some(r) => crate::strops::has_word(r.as_str(), "alternate"),
            None => false,
        };
        let is_oembed = match &links[i].attrs[2] {
            Some(t) => crate::strops::str_eq_ci(t.as_str(), "application/json+oembed")
                || crate::strops::str_eq_ci(t.as_str(), "text/xml+oembed"),
            None => false,
        };
        if is_alt && is_oembed {
            match &links[i].attrs[1] {
                Some(h) => {
                    return Some(h.clone());
                },
                None => {},
            }
        }
        i += 1;
    }
    None
}

/// The thumbnail a fetched oEmbed body yields: only a JSON endpoint
/// (the `href` mentions `json+oembed`) is read; its `thumbnail_url`,
/// else its `url`, put through the absolutizer.
pub open spec fn oembed_value(
    base: Seq<char>,
    href: Option<Seq<char>>,
    body: Option<Seq<char>>,
) -> Option<Seq<char>> {
    match href {
        Some(h) => match body {
            Some(text) => if crate::strops::spec_contains(h, "json+oembed"@) && json_parse_ok(
                text,
            ) {
                match json_of(text) {
                    Json::Object(m) => {
                        let u = match obj_get(m@, "thumbnail_url"@) {
                            Some(Json::Text(s)) => Some(s@),
                            _ => match obj_get(m@, "url"@) {
                                Some(Json::Text(s)) => Some(s@),
                                _ => None,
                            },
                        };
                        match u {
                            Some(uu) => spec_absolutise(base, uu),
                            None => None,
                        }
                    },
                    _ => None,
                }
            } else {
                None
            },
            None => None,
        },
        None => None,
    }
}

fn oembed_thumbnail(base: &str, href: &Option<String>, body: &Option<String>) -> (r: Option<
    String,
>)
    ensures
        opt_view(r) == oembed_value(base@, match *href {
            Some(ref h) => Some(h@),
            None => None,
        }, opt_view(*body)),
{
    match href {
        Some(h) => match body {
            Some(text) => {
                if crate::strops::str_contains(h.as_str(), "json+oembed") {
                    match parse_json(text.as_str()) {
                        Some(Json::Object(m)) => {
                            let u = match crate::json::json_get(&m, "thumbnail_url") {
                                Some(Json::Text(s)) => Some(s.clone()),
                                _ => match crate::json::json_get(&m, "url") {
                                    Some(Json::Text(s)) => Some(s.clone()),
                                    _ => None,
                                },
                            };
                            match u {
                                Some(uu) => absolutise(base, uu.as_str()),
                                None => None,
                            }
                        },
                        _ => None,
                    }
                } else {
                    None
                }
            },
            None => None,
        },
        None => None,
    }
}

/// The AMP story poster: the first `amp-story` element's three poster
/// attributes tried in order, each through the absolutizer.
pub open spec fn amp_attr_from(base: Seq<char>, e: QElem, k: int) -> Option<Seq<char>>
    decreases 3 - k,
{
    if k >= 3 {
        None
    } else {
        match e.attrs@[k] {
            Some(u) => match spec_absolutise(base, u@) {
                Some(r) => Some(r),
                None => amp_attr_from(base, e, k + 1),
            },
            None => amp_attr_from(base, e, k + 1),
        }
    }
}

/// The AMP story poster value of a document.
pub open spec fn spec_amp_poster(base: Seq<char>, es: Seq<QElem>) -> Option<Seq<char>> {
    if es.len() > 0 {
        amp_attr_from(base, es[0], 0)
    } else {
        None
    }
}

fn amp_poster(base: &str, es: &Vec<QElem>) -> (r: Option<String>)
    requires
        crate::doc::elems_wf(es@, 3),
    ensures
        opt_view(r) == spec_amp_poster(base@, es@),
{
    if es.len() == 0 {
        return None;
    }
    let e = &es[0];
    let mut k: usize = 0;
    while k < 3
        invariant
            k <= 3,
            e.attrs@.len() == 3,
            *e == es@[0],
            es@.len() > 0,
            spec_amp_poster(base@, es@) == amp_attr_from(base@, es@[0], k as int),
        decreases 3 - k,
    {
        match &e.attrs[k] {
            Some(u) => {
                match absolutise(base, u.as_str()) {
                    Some(r) => {
                        return Some(r);
                    },
                    None => {},
                }
            },
            None => {},
        }
        k += 1;
    }
    None
}

/// The `<link rel="image_src">` fallback: the first such link whose
/// `href` absolutizes; explicitly non-standard, last resort.
pub open spec fn spec_image_src(base: Seq<char>, links: Seq<QElem>) -> Option<Seq<char>>
    decreases links.len(),
{
    if links.len() == 0 {
        None
    } else {
        let is_src = match links[0].attrs@[0] {
            Some(r) => r@ == "image_src"@,
            None => false,
        };
        let hit = if is_src {
            match links[0].attrs@[1] {
                Some(h) => spec_absolutise(base, h@),
                None => None,
            }
        } else {
            None
        };
        match hit {
            Some(u) => Some(u),
            None => spec_image_src(base, links.drop_first()),
        }
    }
}

fn image_src(base: &str, links: &Vec<QElem>) -> (r: Option<String>)
    requires
        crate::doc::elems_wf(links@, 4),
    ensures
        opt_view(r) == spec_image_src(base@, links@),
{
    let len = links.len();
    let mut i: usize = 0;
    proof {
        assert(links@.skip(0) =~= links@);
    }
    while i < len
        invariant
            i <= len,
            len == links@.len(),
            crate::doc::elems_wf(links@, 4),
            spec_image_src(base@, links@) == spec_image_src(base@, links@.skip(i as int)),
        decreases len - i,
    {
        proof {
            let t = links@.skip(i as int);
            assert(t[0] == links@[i as int]);
            assert(t.drop_first() =~= links@.skip(i as int + 1));
        }
        let is_src = match &links[i].attrs[0] {
            Some(r) => crate::text::str_eq(r.as_str(), "image_src"),
            None => false,
        };
        if is_src {
            match &links[i].attrs[1] {
                Some(h) => {
                    match absolutise(base, h.as_str()) {
                        Some(u) => {
                            return Some(u);
                        },
                        None => {},
                    }
                },
                None => {},
            }
        }
        i += 1;
    }
    None
}

/// The thumbnail strategies that come before the oEmbed lookup:
/// OpenGraph images, Twitter images, JSON-LD primary image,
/// Microdata/RDFa primary image, JSON-LD generic image, Microdata/RDFa
/// generic image, microformats2 images — every candidate through the
/// absolutizer.
pub open spec fn spec_thumbnail_pre_chain(d: DocView, base: Seq<char>) -> Option<Seq<char>> {
    or_opt(
        abs_opt(base, spec_first_meta(d.head_metas@, 1, "og:image:secure_url"@)),
        or_opt(
            abs_opt(base, spec_first_meta(d.head_metas@, 1, "og:image:url"@)),
            or_opt(
                abs_opt(base, spec_first_meta(d.head_metas@, 1, "og:image"@)),
                or_opt(
                    abs_opt(base, spec_first_meta(d.head_metas@, 0, "twitter:image"@)),
                    or_opt(
                        abs_opt(base, spec_first_meta(d.head_metas@, 0, "twitter:image:src"@)),
                        or_opt(
                            first_abs(base, blocks_primary(d.ld_blocks@)),
                            or_opt(
                                abs_opt(base, spec_pick_url(d.itemprop_primary_image@)),
                                or_opt(
                                    abs_opt(base, spec_pick_url(d.prop_schema_primary_image@)),
                                    or_opt(
                                        first_abs(
                                            base,
                                            blocks_generic(d.ld_blocks@, Seq::empty()),
                                        ),
                                        or_opt(
                                            abs_opt(base, spec_pick_url(d.itemprop_image@)),
                                            or_opt(
                                                abs_opt(base, spec_pick_url(d.prop_schema_image@)),
                                                or_opt(
                                                    abs_opt(
                                                        base,
                                                        spec_pick_url(d.hentry_ufeatured@),
                                                    ),
                                                    or_opt(
                                                        abs_opt(base, spec_pick_url(d.ufeatured@)),
                                                        or_opt(
                                                            abs_opt(
                                                                base,
                                                                spec_pick_url(d.hentry_uphoto@),
                                                            ),
                                                            abs_opt(
                                                                base,
                                                                spec_pick_url(d.uphoto@),
                                                            ),
                                                        ),
                                                    ),
                                                ),
                                            ),
                                        ),
                                    ),
                                ),
                            ),
                        ),
                    ),
                ),
            ),
        ),
    )
}

/// The thumbnail: the strategy chain with the oEmbed lookup, the AMP
/// story poster and `rel="image_src"` as the last three strategies;
/// absent where all miss.
pub open spec fn spec_thumbnail(
    d: DocView,
    base: Seq<char>,
    oembed_body: Option<Seq<char>>,
) -> Option<Seq<char>> {
    or_opt(
        spec_thumbnail_pre_chain(d, base),
        or_opt(
            oembed_value(base, spec_oembed_href(d.links@), oembed_body),
            or_opt(spec_amp_poster(base, d.amp_story@), spec_image_src(base, d.links@)),
        ),
    )
}

/// Runs the thumbnail strategies that precede the oEmbed lookup.
#[verifier::rlimit(60)]
fn thumbnail_pre(d: &DocView, base: &str) -> (r: Option<String>)
    requires
        d.wf(),
    ensures
        opt_view(r) == spec_thumbnail_pre_chain(*d, base@),
{
    if let Some(u) = first_meta(&d.head_metas, 1, "og:image:secure_url") {
        if let Some(r) = absolutise(base, u.as_str()) {
            return Some(r);
        }
    }
    if let Some(u) = first_meta(&d.head_metas, 1, "og:image:url") {
        if let Some(r) = absolutise(base, u.as_str()) {
            return Some(r);
        }
    }
    if let Some(u) = first_meta(&d.head_metas, 1, "og:image") {
        if let Some(r) = absolutise(base, u.as_str()) {
            return Some(r);
        }
    }
    if let Some(u) = first_meta(&d.head_metas, 0, "twitter:image") {
        if let Some(r) = absolutise(base, u.as_str()) {
            return Some(r);
        }
    }
    if let Some(u) = first_meta(&d.head_metas, 0, "twitter:image:src") {
        if let Some(r) = absolutise(base, u.as_str()) {
            return Some(r);
        }
    }
    let primary = gather_block_primary(&d.ld_blocks);
    if let Some(r) = pick_first_abs(base, &primary) {
        return Some(r);
    }
    if let Some(u) = pick_url(&d.itemprop_primary_image) {
        if let Some(r) = absolutise(base, u.as_str()) {
            return Some(r);
        }
    }
    if let Some(u) = pick_url(&d.prop_schema_primary_image) {
        if let Some(r) = absolutise(base, u.as_str()) {
            return Some(r);
        }
    }
    let generic = gather_block_generic(&d.ld_blocks);
    if let Some(r) = pick_first_abs(base, &generic) {
        return Some(r);
    }
    if let Some(u) = pick_url(&d.itemprop_image) {
        if let Some(r) = absolutise(base, u.as_str()) {
            return Some(r);
        }
    }
    if let Some(u) = pick_url(&d.prop_schema_image) {
        if let Some(r) = absolutise(base, u.as_str()) {
            return Some(r);
        }
    }
    if let Some(u) = pick_url(&d.hentry_ufeatured) {
        if let Some(r) = absolutise(base, u.as_str()) {
            return Some(r);
        }
    }
    if let Some(u) = pick_url(&d.ufeatured) {
        if let Some(r) = absolutise(base, u.as_str()) {
            return Some(r);
        }
    }
    if let Some(u) = pick_url(&d.hentry_uphoto) {
        if let Some(r) = absolutise(base, u.as_str()) {
            return Some(r);
        }
    }
    if let Some(u) = pick_url(&d.uphoto) {
        if let Some(r) = absolutise(base, u.as_str()) {
            return Some(r);
        }
    }
    None
}

/// Resolves the thumbnail URL. `oembed_body` is the fetched oEmbed
/// document where [`thumbnail_oembed_request`] asked for one; `None` is
/// a soft miss.
pub fn resolve_thumbnail(d: &DocView, base: &str, oembed_body: &Option<String>) -> (r: Option<
    String,
>)
    requires
        d.wf(),
    ensures
        opt_view(r) == spec_thumbnail(*d, base@, opt_view(*oembed_body)),
{
    if let Some(r) = thumbnail_pre(d, base) {
        return Some(r);
    }
    let href = oembed_href(&d.links);
    if let Some(r) = oembed_thumbnail(base, &href, oembed_body) {
        return Some(r);
    }
    if let Some(r) = amp_poster(base, &d.amp_story) {
        return Some(r);
    }
    image_src(base, &d.links)
}

/// The oEmbed URL that thumbnail resolution would fetch: present
/// exactly where every strategy before the oEmbed lookup misses, an
/// oEmbed endpoint link exists, and joining its `href` against the base
/// succeeds.
pub open spec fn spec_thumbnail_oembed_request(d: DocView, base: Seq<char>) -> Option<Seq<char>> {
    if spec_thumbnail_pre_chain(d, base) is Some {
        None
    } else {
        match spec_oembed_href(d.links@) {
            Some(h) => if crate::urls::url_join_ok(base, h) {
                Some(crate::urls::url_join(base, h))
            } else {
                None
            },
            None => None,
        }
    }
}

/// Says whether thumbnail resolution needs the oEmbed document, and
/// which URL to fetch it from.
pub fn thumbnail_oembed_request(d: &DocView, base: &str) -> (r: Option<String>)
    requires
        d.wf(),
    ensures
        opt_view(r) == spec_thumbnail_oembed_request(*d, base@),
{
    match thumbnail_pre(d, base) {
        Some(_u) => None,
        None => {
            match oembed_href(&d.links) {
                Some(h) => crate::urls::join_url(base, h.as_str()),
                None => None,
            }
        },
    }
}

} // verus!
