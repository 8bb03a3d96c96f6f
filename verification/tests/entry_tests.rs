use libspy::doc::scan_html;
use libspy::entry::{Entry, EntryView};

const BASE: &str = "https://example.com/page";

fn build(html: &str, title: Option<String>) -> Entry {
    let d = scan_html(html);
    let url = String::from(BASE);
    Entry::from_parts(
        String::from("id-1"),
        &url,
        title,
        html,
        &d,
        &None,
        &None,
        &None,
    )
}

#[test]
fn minimal_page_resolves_title_and_host() {
    let html = "<html><head><title>Hello</title></head><body><p>x</p></body></html>";
    let e = build(html, None);
    assert_eq!(e.page_title, "Hello");
    assert_eq!(e.site_title, "example.com");
    assert_eq!(e.authors.items.len(), 0);
    assert_eq!(e.description, None);
    assert_eq!(e.thumbnail, None);
    assert_eq!(e.id, "id-1");
    assert_eq!(e.url, BASE);
}

#[test]
fn twitter_creator_only_yields_single_author() {
    let html = "<html><head><meta name=\"twitter:creator\" content=\"@jdoe\"></head><body></body></html>";
    let e = build(html, None);
    assert_eq!(e.authors.items.len(), 1);
    assert!(e.authors.contains_name("jdoe"));
}

#[test]
fn duplicate_author_across_sources_counted_once() {
    let html = "<html><head>\
        <meta name=\"author\" content=\"Jane  Doe\">\
        <meta name=\"author\" content=\" Jane Doe \">\
        <script type=\"application/ld+json\">{\"author\":\"Jane Doe\"}</script>\
        </head><body></body></html>";
    let e = build(html, None);
    assert_eq!(e.authors.items.len(), 1);
    assert!(e.authors.contains_name("Jane Doe"));
    let v = EntryView::from_entry(&e);
    assert_eq!(v.author, Some(String::from("Jane Doe")));
    assert_eq!(v.authors, vec![String::from("Jane Doe")]);
}

#[test]
fn view_sorts_authors_and_picks_smallest() {
    let html = "<html><head>\
        <meta name=\"author\" content=\"bob\">\
        <meta name=\"author\" content=\"alice\">\
        <meta name=\"author\" content=\"carol\">\
        </head><body></body></html>";
    let e = build(html, None);
    assert_eq!(e.authors.items.len(), 3);
    let v = EntryView::from_entry(&e);
    assert_eq!(
        v.authors,
        vec![String::from("alice"), String::from("bob"), String::from("carol")]
    );
    assert_eq!(v.author, Some(String::from("alice")));
}

#[test]
fn view_copies_scalar_fields() {
    let html = "<html><head><title>T</title>\
        <meta name=\"description\" content=\"D\">\
        <meta property=\"og:image\" content=\"https://x/i.png\">\
        </head><body></body></html>";
    let e = build(html, None);
    let v = EntryView::from_entry(&e);
    assert_eq!(v.title, "T");
    assert_eq!(v.site, "example.com");
    assert_eq!(v.url, BASE);
    assert_eq!(v.id, "id-1");
    assert_eq!(v.description, Some(String::from("D")));
    assert_eq!(v.thumbnail, Some(String::from("https://x/i.png")));
    assert_eq!(v.author, None);
    assert!(v.authors.is_empty());
}

#[test]
fn caller_supplied_title_bypasses_resolution() {
    let html = "<html><head><title>Real</title></head><body></body></html>";
    let e = build(html, Some(String::from("Mine")));
    assert_eq!(e.page_title, "Mine");
}

#[test]
fn assemble_assigns_an_identifier() {
    let html = "<html><head><title>T</title></head><body></body></html>";
    let url = String::from(BASE);
    let e = Entry::assemble(&url, None, html, &None, &None, &None);
    assert_eq!(e.page_title, "T");
    assert_eq!(e.url, BASE);
}

#[test]
fn full_text_comes_from_content_extraction() {
    let html = "<html><head><title>T</title></head><body>\
        <article><p>The quick brown fox jumps over the lazy dog. It was a sunny day and \
        the fox had a great deal of running to do before dusk.</p></article>\
        </body></html>";
    let e = build(html, None);
    assert!(e.full_text.contains("quick brown fox"));
    assert!(!e.full_text.contains("<head>"));
}
