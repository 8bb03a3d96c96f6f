//! The document accessor: scraper parses the HTML and evaluates the CSS
//! selector queries; each query's matches come back as plain values (raw
//! element text and raw attribute values, in document order) in a
//! [`DocView`]. Parsing and selector matching are deterministic
//! functions of the page text, so each query's result is a named
//! function of the page text and the query, and [`scan_html`] pins every
//! field of the view to those names; every decision about the values is
//! verified code.

use vstd::prelude::*;
use vstd::string::StringExecFns;
use crate::text::views_of;

verus! {

/// One matched element, as plain values: its concatenated raw text and,
/// for each requested attribute name, the raw attribute value where the
/// element carries it.
pub struct QElem {
    pub text: String,
    pub attrs: Vec<Option<String>>,
}

/// One matched element together with the matches of an inner selector
/// scoped to its subtree: the element's raw text and `content`
/// attribute, the inner matches' raw texts, and the inner matches'
/// `content` attribute values (present ones only, in order).
pub struct ScopedElem {
    pub text: String,
    pub content: Option<String>,
    pub inner_texts: Vec<String>,
    pub inner_contents: Vec<String>,
}

/// Whether every element of a query result carries one attribute slot
/// per requested attribute name.
pub open spec fn elems_wf(es: Seq<QElem>, n: int) -> bool {
    forall|i: int| 0 <= i < es.len() ==> #[trigger] es[i].attrs@.len() == n
}

/// What one selector query yields on a page: the elements the selector
/// matches in scraper's parse of the page text, in document order, each
/// with its raw text and the requested attributes' raw values. A
/// function of the page text and the query alone, since parsing and
/// matching are deterministic.
pub uninterp spec fn queried(html: Seq<char>, css: Seq<char>, attrs: Seq<Seq<char>>) -> Seq<
    QElem,
>;

/// What one scoped query yields on a page: the outer selector's matches
/// in document order, each with the inner selector's matches inside its
/// own subtree.
pub uninterp spec fn queried_scoped(html: Seq<char>, outer: Seq<char>, inner: Seq<char>) -> Seq<
    ScopedElem,
>;

/// Relies on `scraper::Html::parse_document`, `scraper::Selector::parse`,
/// `scraper::Html::select`, `ElementRef::text` and `ElementRef::attr`:
/// parses the page and hands back every element the selector matches, in
/// document order, with its raw text and the requested attributes'
/// values. An invalid selector matches nothing.
#[verifier::external_body]
fn query(html: &str, css: &str, attrs: &Vec<String>) -> (r: Vec<QElem>)
    ensures
        r@ == queried(html@, css@, views_of(attrs@)),
        elems_wf(r@, attrs@.len() as int),
{
    let doc = scraper::Html::parse_document(html);
    let mut out = Vec::new();
    if let Ok(sel) = scraper::Selector::parse(css) {
        for e in doc.select(&sel) {
            out.push(QElem {
                text: e.text().collect::<String>(),
                attrs: attrs.iter().map(|a| e.value().attr(a).map(|v| v.to_string())).collect(),
            });
        }
    }
    out
}

/// Relies on `scraper::Html::parse_document`, `scraper::Selector::parse`,
/// `Html::select`, `ElementRef::select`, `ElementRef::text` and
/// `ElementRef::attr`: parses the page and hands back the outer
/// selector's matches, each with the inner selector's matches inside its
/// own subtree.
#[verifier::external_body]
fn query_scoped(html: &str, outer_css: &str, inner_css: &str) -> (r: Vec<ScopedElem>)
    ensures
        r@ == queried_scoped(html@, outer_css@, inner_css@),
{
    let doc = scraper::Html::parse_document(html);
    let mut out = Vec::new();
    let sels = (scraper::Selector::parse(outer_css), scraper::Selector::parse(inner_css));
    if let (Ok(so), Ok(si)) = sels {
        for e in doc.select(&so) {
            out.push(ScopedElem {
                text: e.text().collect::<String>(),
                content: e.value().attr("content").map(str::to_string),
                inner_texts: e.select(&si).map(|c| c.text().collect::<String>()).collect(),
                inner_contents: e.select(&si).filter_map(|c| c.value().attr("content").map(str::to_string)).collect(),
            });
        }
    }
    out
}

/// No attributes requested.
pub open spec fn no_attr_names() -> Seq<Seq<char>> {
    Seq::empty()
}

/// The single `content` attribute.
pub open spec fn content_attr_names() -> Seq<Seq<char>> {
    seq!["content"@]
}

/// The attributes read off `head meta` elements.
pub open spec fn meta_attr_names() -> Seq<Seq<char>> {
    seq!["name"@, "property"@, "content"@]
}

/// The attributes read off `link` elements.
pub open spec fn link_attr_names() -> Seq<Seq<char>> {
    seq!["rel"@, "href"@, "type"@, "title"@]
}

/// The attributes read off `a` elements.
pub open spec fn anchor_attr_names() -> Seq<Seq<char>> {
    seq!["rel"@, "title"@]
}

/// The URL-carrying attributes tried on image elements.
pub open spec fn url_attr_names() -> Seq<Seq<char>> {
    seq!["content"@, "src"@, "href"@, "data-src"@]
}

/// The poster attributes of an `amp-story` element.
pub open spec fn amp_attr_names() -> Seq<Seq<char>> {
    seq!["poster-portrait-src"@, "poster-landscape-src"@, "poster-square-src"@]
}

fn no_attrs() -> (r: Vec<String>)
    ensures
        views_of(r@) == no_attr_names(),
{
    let r: Vec<String> = Vec::new();
    proof {
        assert(views_of(r@) =~= no_attr_names());
    }
    r
}

fn content_attr() -> (r: Vec<String>)
    ensures
        views_of(r@) == content_attr_names(),
        r@.len() == 1,
{
    let mut v: Vec<String> = Vec::new();
    v.push(String::from_str("content"));
    proof {
        assert(views_of(v@) =~= content_attr_names());
    }
    v
}

fn meta_attrs() -> (r: Vec<String>)
    ensures
        views_of(r@) == meta_attr_names(),
        r@.len() == 3,
{
    let mut v: Vec<String> = Vec::new();
    v.push(String::from_str("name"));
    v.push(String::from_str("property"));
    v.push(String::from_str("content"));
    proof {
        assert(views_of(v@) =~= meta_attr_names());
    }
    v
}

fn link_attrs() -> (r: Vec<String>)
    ensures
        views_of(r@) == link_attr_names(),
        r@.len() == 4,
{
    let mut v: Vec<String> = Vec::new();
    v.push(String::from_str("rel"));
    v.push(String::from_str("href"));
    v.push(String::from_str("type"));
    v.push(String::from_str("title"));
    proof {
        assert(views_of(v@) =~= link_attr_names());
    }
    v
}

fn anchor_attrs() -> (r: Vec<String>)
    ensures
        views_of(r@) == anchor_attr_names(),
        r@.len() == 2,
{
    let mut v: Vec<String> = Vec::new();
    v.push(String::from_str("rel"));
    v.push(String::from_str("title"));
    proof {
        assert(views_of(v@) =~= anchor_attr_names());
    }
    v
}

fn url_attrs() -> (r: Vec<String>)
    ensures
        views_of(r@) == url_attr_names(),
        r@.len() == 4,
{
    let mut v: Vec<String> = Vec::new();
    v.push(String::from_str("content"));
    v.push(String::from_str("src"));
    v.push(String::from_str("href"));
    v.push(String::from_str("data-src"));
    proof {
        assert(views_of(v@) =~= url_attr_names());
    }
    v
}

fn amp_attrs() -> (r: Vec<String>)
    ensures
        views_of(r@) == amp_attr_names(),
        r@.len() == 3,
{
    let mut v: Vec<String> = Vec::new();
    v.push(String::from_str("poster-portrait-src"));
    v.push(String::from_str("poster-landscape-src"));
    v.push(String::from_str("poster-square-src"));
    proof {
        assert(views_of(v@) =~= amp_attr_names());
    }
    v
}

/// Everything the resolution engine reads out of a parsed document, as
/// plain values. Attribute slots per field are listed with the field.
pub struct DocView {
    /// `head > title` matches (text only).
    pub title_el: Vec<QElem>,
    /// `head meta` matches; attributes `name`, `property`, `content`.
    pub head_metas: Vec<QElem>,
    /// `script[type="application/ld+json"]` matches (raw text).
    pub ld_blocks: Vec<QElem>,
    /// `[itemprop="headline"]`; attribute `content`.
    pub itemprop_headline: Vec<QElem>,
    /// `[itemprop="name"]`; attribute `content`.
    pub itemprop_name: Vec<QElem>,
    /// `.h-entry .p-name` (text only).
    pub hentry_pname: Vec<QElem>,
    /// `.p-name` (text only).
    pub pname: Vec<QElem>,
    /// `.h-entry .entry-title` (text only).
    pub hentry_entry_title: Vec<QElem>,
    /// `[property="schema:headline"]`; attribute `content`.
    pub prop_schema_headline: Vec<QElem>,
    /// `[property="schema:name"]`; attribute `content`.
    pub prop_schema_name: Vec<QElem>,
    /// `[property="dcterms:title"]`; attribute `content`.
    pub prop_dcterms_title: Vec<QElem>,
    /// `link` elements; attributes `rel`, `href`, `type`, `title`.
    pub links: Vec<QElem>,
    /// `a` elements; attributes `rel`, `title`.
    pub anchors: Vec<QElem>,
    /// `[itemscope][itemtype*="schema.org/WebSite"] [itemprop="name"]`;
    /// attribute `content`.
    pub website_names: Vec<QElem>,
    /// `[itemscope][itemtype*="schema.org/Organization"] [itemprop="name"]`;
    /// attribute `content`.
    pub org_names: Vec<QElem>,
    /// `.h-card .p-name` (text only).
    pub hcard_pname: Vec<QElem>,
    /// `[itemprop="author"]` with inner `[itemprop="name"]`.
    pub itemprop_author: Vec<ScopedElem>,
    /// `.h-entry .p-author` with inner `.p-name`.
    pub mf_hentry_pauthor: Vec<ScopedElem>,
    /// `.p-author` with inner `.p-name`.
    pub mf_pauthor: Vec<ScopedElem>,
    /// `.h-entry .author` with inner `.p-name`.
    pub mf_hentry_author: Vec<ScopedElem>,
    /// `.author.vcard` with inner `.p-name`.
    pub mf_author_vcard: Vec<ScopedElem>,
    /// `[property="schema:author"]`; attribute `content`.
    pub prop_schema_author: Vec<QElem>,
    /// `[itemprop="description"]`; attribute `content`.
    pub itemprop_description: Vec<QElem>,
    /// `[itemprop="abstract"]`; attribute `content`.
    pub itemprop_abstract: Vec<QElem>,
    /// `[property="schema:description"]`; attribute `content`.
    pub prop_schema_description: Vec<QElem>,
    /// `.h-entry .p-summary` (text only).
    pub hentry_psummary: Vec<QElem>,
    /// `.p-summary` (text only).
    pub psummary: Vec<QElem>,
    /// `[itemprop="primaryImageOfPage"]`; attributes `content`, `src`,
    /// `href`, `data-src`.
    pub itemprop_primary_image: Vec<QElem>,
    /// `[property="schema:primaryImageOfPage"]`; same attributes.
    pub prop_schema_primary_image: Vec<QElem>,
    /// `[itemprop="image"]`; same attributes.
    pub itemprop_image: Vec<QElem>,
    /// `[property="schema:image"]`; same attributes.
    pub prop_schema_image: Vec<QElem>,
    /// `.h-entry .u-featured`; same attributes.
    pub hentry_ufeatured: Vec<QElem>,
    /// `.u-featured`; same attributes.
    pub ufeatured: Vec<QElem>,
    /// `.h-entry .u-photo`; same attributes.
    pub hentry_uphoto: Vec<QElem>,
    /// `.u-photo`; same attributes.
    pub uphoto: Vec<QElem>,
    /// `amp-story`; attributes `poster-portrait-src`,
    /// `poster-landscape-src`, `poster-square-src`.
    pub amp_story: Vec<QElem>,
    /// `article address` (text only).
    pub article_address: Vec<QElem>,
    /// `footer address` (text only).
    pub footer_address: Vec<QElem>,
    /// `address` (text only).
    pub address_els: Vec<QElem>,
}

impl DocView {
    /// Every attribute-carrying field holds one slot per attribute the
    /// scan requested.
    pub open spec fn wf(self) -> bool {
        &&& elems_wf(self.head_metas@, 3)
        &&& elems_wf(self.itemprop_headline@, 1)
        &&& elems_wf(self.itemprop_name@, 1)
        &&& elems_wf(self.prop_schema_headline@, 1)
        &&& elems_wf(self.prop_schema_name@, 1)
        &&& elems_wf(self.prop_dcterms_title@, 1)
        &&& elems_wf(self.links@, 4)
        &&& elems_wf(self.anchors@, 2)
        &&& elems_wf(self.website_names@, 1)
        &&& elems_wf(self.org_names@, 1)
        &&& elems_wf(self.prop_schema_author@, 1)
        &&& elems_wf(self.itemprop_description@, 1)
        &&& elems_wf(self.itemprop_abstract@, 1)
        &&& elems_wf(self.prop_schema_description@, 1)
        &&& elems_wf(self.itemprop_primary_image@, 4)
        &&& elems_wf(self.prop_schema_primary_image@, 4)
        &&& elems_wf(self.itemprop_image@, 4)
        &&& elems_wf(self.prop_schema_image@, 4)
        &&& elems_wf(self.hentry_ufeatured@, 4)
        &&& elems_wf(self.ufeatured@, 4)
        &&& elems_wf(self.hentry_uphoto@, 4)
        &&& elems_wf(self.uphoto@, 4)
        &&& elems_wf(self.amp_story@, 3)
    }

    /// Whether this view holds exactly what every query of the scan
    /// yields on the given page text: each field is the named result of
    /// its selector query. This is what ties a resolved record to the
    /// page it was extracted from.
    pub open spec fn is_scan_of(self, html: Seq<char>) -> bool {
        &&& self.wf()
        &&& self.title_el@ == queried(html, "head > title"@, no_attr_names())
        &&& self.head_metas@ == queried(html, "head meta"@, meta_attr_names())
        &&& self.ld_blocks@ == queried(
            html,
            "script[type=\"application/ld+json\"]"@,
            no_attr_names(),
        )
        &&& self.itemprop_headline@ == queried(
            html,
            "[itemprop=\"headline\"]"@,
            content_attr_names(),
        )
        &&& self.itemprop_name@ == queried(html, "[itemprop=\"name\"]"@, content_attr_names())
        &&& self.hentry_pname@ == queried(html, ".h-entry .p-name"@, no_attr_names())
        &&& self.pname@ == queried(html, ".p-name"@, no_attr_names())
        &&& self.hentry_entry_title@ == queried(html, ".h-entry .entry-title"@, no_attr_names())
        &&& self.prop_schema_headline@ == queried(
            html,
            "[property=\"schema:headline\"]"@,
            content_attr_names(),
        )
        &&& self.prop_schema_name@ == queried(
            html,
            "[property=\"schema:name\"]"@,
            content_attr_names(),
        )
        &&& self.prop_dcterms_title@ == queried(
            html,
            "[property=\"dcterms:title\"]"@,
            content_attr_names(),
        )
        &&& self.links@ == queried(html, "link"@, link_attr_names())
        &&& self.anchors@ == queried(html, "a"@, anchor_attr_names())
        &&& self.website_names@ == queried(
            html,
            "[itemscope][itemtype*=\"schema.org/WebSite\"] [itemprop=\"name\"]"@,
            content_attr_names(),
        )
        &&& self.org_names@ == queried(
            html,
            "[itemscope][itemtype*=\"schema.org/Organization\"] [itemprop=\"name\"]"@,
            content_attr_names(),
        )
        &&& self.hcard_pname@ == queried(html, ".h-card .p-name"@, no_attr_names())
        &&& self.itemprop_author@ == queried_scoped(
            html,
            "[itemprop=\"author\"]"@,
            "[itemprop=\"name\"]"@,
        )
        &&& self.mf_hentry_pauthor@ == queried_scoped(html, ".h-entry .p-author"@, ".p-name"@)
        &&& self.mf_pauthor@ == queried_scoped(html, ".p-author"@, ".p-name"@)
        &&& self.mf_hentry_author@ == queried_scoped(html, ".h-entry .author"@, ".p-name"@)
        &&& self.mf_author_vcard@ == queried_scoped(html, ".author.vcard"@, ".p-name"@)
        &&& self.prop_schema_author@ == queried(
            html,
            "[property=\"schema:author\"]"@,
            content_attr_names(),
        )
        &&& self.itemprop_description@ == queried(
            html,
            "[itemprop=\"description\"]"@,
            content_attr_names(),
        )
        &&& self.itemprop_abstract@ == queried(
            html,
            "[itemprop=\"abstract\"]"@,
            content_attr_names(),
        )
        &&& self.prop_schema_description@ == queried(
            html,
            "[property=\"schema:description\"]"@,
            content_attr_names(),
        )
        &&& self.hentry_psummary@ == queried(html, ".h-entry .p-summary"@, no_attr_names())
        &&& self.psummary@ == queried(html, ".p-summary"@, no_attr_names())
        &&& self.itemprop_primary_image@ == queried(
            html,
            "[itemprop=\"primaryImageOfPage\"]"@,
            url_attr_names(),
        )
        &&& self.prop_schema_primary_image@ == queried(
            html,
            "[property=\"schema:primaryImageOfPage\"]"@,
            url_attr_names(),
        )
        &&& self.itemprop_image@ == queried(html, "[itemprop=\"image\"]"@, url_attr_names())
        &&& self.prop_schema_image@ == queried(
            html,
            "[property=\"schema:image\"]"@,
            url_attr_names(),
        )
        &&& self.hentry_ufeatured@ == queried(html, ".h-entry .u-featured"@, url_attr_names())
        &&& self.ufeatured@ == queried(html, ".u-featured"@, url_attr_names())
        &&& self.hentry_uphoto@ == queried(html, ".h-entry .u-photo"@, url_attr_names())
        &&& self.uphoto@ == queried(html, ".u-photo"@, url_attr_names())
        &&& self.amp_story@ == queried(html, "amp-story"@, amp_attr_names())
        &&& self.article_address@ == queried(html, "article address"@, no_attr_names())
        &&& self.footer_address@ == queried(html, "footer address"@, no_attr_names())
        &&& self.address_els@ == queried(html, "address"@, no_attr_names())
    }
}

/// Runs every selector query the resolution engine needs against the
/// page text and hands their matches back as plain values, each field
/// pinned to its query's named result.
pub fn scan_html(html: &str) -> (d: DocView)
    ensures
        d.is_scan_of(html@),
{
    DocView {
        title_el: query(html, "head > title", &no_attrs()),
        head_metas: query(html, "head meta", &meta_attrs()),
        ld_blocks: query(html, "script[type=\"application/ld+json\"]", &no_attrs()),
        itemprop_headline: query(html, "[itemprop=\"headline\"]", &content_attr()),
        itemprop_name: query(html, "[itemprop=\"name\"]", &content_attr()),
        hentry_pname: query(html, ".h-entry .p-name", &no_attrs()),
        pname: query(html, ".p-name", &no_attrs()),
        hentry_entry_title: query(html, ".h-entry .entry-title", &no_attrs()),
        prop_schema_headline: query(html, "[property=\"schema:headline\"]", &content_attr()),
        prop_schema_name: query(html, "[property=\"schema:name\"]", &content_attr()),
        prop_dcterms_title: query(html, "[property=\"dcterms:title\"]", &content_attr()),
        links: query(html, "link", &link_attrs()),
        anchors: query(html, "a", &anchor_attrs()),
        website_names: query(
            html,
            "[itemscope][itemtype*=\"schema.org/WebSite\"] [itemprop=\"name\"]",
            &content_attr(),
        ),
        org_names: query(
            html,
            "[itemscope][itemtype*=\"schema.org/Organization\"] [itemprop=\"name\"]",
            &content_attr(),
        ),
        hcard_pname: query(html, ".h-card .p-name", &no_attrs()),
        itemprop_author: query_scoped(html, "[itemprop=\"author\"]", "[itemprop=\"name\"]"),
        mf_hentry_pauthor: query_scoped(html, ".h-entry .p-author", ".p-name"),
        mf_pauthor: query_scoped(html, ".p-author", ".p-name"),
        mf_hentry_author: query_scoped(html, ".h-entry .author", ".p-name"),
        mf_author_vcard: query_scoped(html, ".author.vcard", ".p-name"),
        prop_schema_author: query(html, "[property=\"schema:author\"]", &content_attr()),
        itemprop_description: query(html, "[itemprop=\"description\"]", &content_attr()),
        itemprop_abstract: query(html, "[itemprop=\"abstract\"]", &content_attr()),
        prop_schema_description: query(
            html,
            "[property=\"schema:description\"]",
            &content_attr(),
        ),
        hentry_psummary: query(html, ".h-entry .p-summary", &no_attrs()),
        psummary: query(html, ".p-summary", &no_attrs()),
        itemprop_primary_image: query(html, "[itemprop=\"primaryImageOfPage\"]", &url_attrs()),
        prop_schema_primary_image: query(
            html,
            "[property=\"schema:primaryImageOfPage\"]",
            &url_attrs(),
        ),
        itemprop_image: query(html, "[itemprop=\"image\"]", &url_attrs()),
        prop_schema_image: query(html, "[property=\"schema:image\"]", &url_attrs()),
        hentry_ufeatured: query(html, ".h-entry .u-featured", &url_attrs()),
        ufeatured: query(html, ".u-featured", &url_attrs()),
        hentry_uphoto: query(html, ".h-entry .u-photo", &url_attrs()),
        uphoto: query(html, ".u-photo", &url_attrs()),
        amp_story: query(html, "amp-story", &amp_attrs()),
        article_address: query(html, "article address", &no_attrs()),
        footer_address: query(html, "footer address", &no_attrs()),
        address_els: query(html, "address", &no_attrs()),
    }
}

} // verus!
