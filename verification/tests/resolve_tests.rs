use libspy::doc::scan_html;
use libspy::resolve::{
    description_manifest_request, resolve_authors, resolve_description, resolve_site_title,
    resolve_thumbnail, resolve_title, site_manifest_request, thumbnail_oembed_request,
};

const BASE: &str = "https://example.com/dir/page";

fn page(head: &str, body: &str) -> String {
    format!("<html><head>{}</head><body>{}</body></html>", head, body)
}

#[test]
fn title_prefers_document_title() {
    let html = page(
        "<title> Hello  World </title><meta property=\"og:title\" content=\"OG\">",
        "",
    );
    let d = scan_html(&html);
    assert_eq!(resolve_title(&d, None), "Hello World");
}

#[test]
fn title_falls_back_to_open_graph() {
    let html = page("<meta property=\"og:title\" content=\" OG  Title \">", "");
    let d = scan_html(&html);
    assert_eq!(resolve_title(&d, None), "OG Title");
}

#[test]
fn caller_title_short_circuits() {
    let html = page("<title>Ignored</title>", "");
    let d = scan_html(&html);
    assert_eq!(resolve_title(&d, Some(String::from("Custom"))), "Custom");
}

#[test]
fn title_from_json_ld_graph() {
    let html = page(
        "<script type=\"application/ld+json\">{\"@graph\":[{\"@type\":\"WebPage\",\"headline\":\"T\"}]}</script>",
        "",
    );
    let d = scan_html(&html);
    assert_eq!(resolve_title(&d, None), "T");
}

#[test]
fn title_from_dublin_core() {
    let html = page("<meta name=\"DC.title\" content=\"Archived\">", "");
    let d = scan_html(&html);
    assert_eq!(resolve_title(&d, None), "Archived");
}

#[test]
fn title_skips_unparsable_json_ld() {
    let html = page(
        "<script type=\"application/ld+json\">{not json]</script><meta name=\"twitter:title\" content=\"TW\">",
        "",
    );
    let d = scan_html(&html);
    assert_eq!(resolve_title(&d, None), "TW");
}

#[test]
fn title_first_json_ld_block_wins() {
    let html = page(
        "<script type=\"application/ld+json\">{\"headline\":\"First\"}</script><script type=\"application/ld+json\">{\"headline\":\"Second\"}</script>",
        "",
    );
    let d = scan_html(&html);
    assert_eq!(resolve_title(&d, None), "First");
}

#[test]
fn title_itemprop_attribute_precedes_text() {
    let html = page(
        "",
        "<span itemprop=\"headline\" content=\"From Attr\">From Text</span>",
    );
    let d = scan_html(&html);
    assert_eq!(resolve_title(&d, None), "From Attr");
}

#[test]
fn site_name_prefers_open_graph_over_json_ld() {
    let html = page(
        "<meta property=\"og:site_name\" content=\"A\"><script type=\"application/ld+json\">{\"@type\":\"WebSite\",\"name\":\"B\"}</script>",
        "",
    );
    let d = scan_html(&html);
    assert_eq!(resolve_site_title(&d, &None, BASE), "A");
}

#[test]
fn site_name_from_json_ld_website() {
    let html = page(
        "<script type=\"application/ld+json\">{\"@type\":\"WebSite\",\"name\":\"B\"}</script>",
        "",
    );
    let d = scan_html(&html);
    assert_eq!(resolve_site_title(&d, &None, BASE), "B");
}

#[test]
fn site_name_from_manifest_body() {
    let html = page("<link rel=\"manifest\" href=\"/site.webmanifest\">", "");
    let d = scan_html(&html);
    assert_eq!(
        site_manifest_request(&d, BASE),
        Some(String::from("https://example.com/site.webmanifest"))
    );
    let body = Some(String::from("{\"name\":\" Manifest  App \"}"));
    assert_eq!(resolve_site_title(&d, &body, BASE), "Manifest App");
    let short = Some(String::from("{\"short_name\":\"MA\"}"));
    assert_eq!(resolve_site_title(&d, &short, BASE), "MA");
    let blank_name = Some(String::from("{\"name\":\"   \",\"short_name\":\"MA\"}"));
    assert_eq!(resolve_site_title(&d, &blank_name, BASE), "MA");
    let neither = Some(String::from("{\"name\":\"  \"}"));
    assert_eq!(resolve_site_title(&d, &neither, BASE), "example.com");
}

#[test]
fn site_name_manifest_fetch_failure_falls_through() {
    let html = page(
        "<link rel=\"manifest\" href=\"/site.webmanifest\"><meta name=\"application-name\" content=\"App\">",
        "",
    );
    let d = scan_html(&html);
    assert_eq!(
        site_manifest_request(&d, BASE),
        Some(String::from("https://example.com/site.webmanifest"))
    );
    assert_eq!(resolve_site_title(&d, &None, BASE), "App");
}

#[test]
fn site_name_accepts_array_valued_type() {
    let html = page(
        "<script type=\"application/ld+json\">{\"@type\":[\"WebSite\"],\"name\":\"N\"}</script>",
        "",
    );
    let d = scan_html(&html);
    assert_eq!(resolve_site_title(&d, &None, BASE), "N");
}

#[test]
fn site_name_from_json_ld_publisher() {
    let html = page(
        "<script type=\"application/ld+json\">{\"@type\":\"Article\",\"publisher\":{\"name\":\"Pub Co\"}}</script>",
        "",
    );
    let d = scan_html(&html);
    assert_eq!(resolve_site_title(&d, &None, BASE), "Pub Co");
}

#[test]
fn site_name_falls_back_to_host() {
    let html = page("<title>t</title>", "");
    let d = scan_html(&html);
    assert_eq!(resolve_site_title(&d, &None, BASE), "example.com");
}

#[test]
fn og_site_name_wins_even_with_manifest_body() {
    let html = page(
        "<meta property=\"og:site_name\" content=\"A\"><link rel=\"manifest\" href=\"/m.json\">",
        "",
    );
    let d = scan_html(&html);
    assert_eq!(site_manifest_request(&d, BASE), None);
    let body = Some(String::from("{\"name\":\"Other\"}"));
    assert_eq!(resolve_site_title(&d, &body, BASE), "A");
}

#[test]
fn authors_from_meta_author() {
    let html = page("<meta name=\"author\" content=\" Jane  Doe \">", "");
    let d = scan_html(&html);
    let a = resolve_authors(&d);
    assert_eq!(a.len(), 1);
    assert!(a.contains_name("Jane Doe"));
}

#[test]
fn authors_from_twitter_creator() {
    let html = page("<meta name=\"twitter:creator\" content=\"@jdoe\">", "");
    let d = scan_html(&html);
    let a = resolve_authors(&d);
    assert_eq!(a.len(), 1);
    assert!(a.contains_name("jdoe"));
}

#[test]
fn authors_from_json_ld_given_family() {
    let html = page(
        "<script type=\"application/ld+json\">{\"author\":{\"givenName\":\"Ada\",\"familyName\":\"Lovelace\"}}</script>",
        "",
    );
    let d = scan_html(&html);
    let a = resolve_authors(&d);
    assert_eq!(a.len(), 1);
    assert!(a.contains_name("Ada Lovelace"));
}

#[test]
fn authors_skip_url_shaped_strings() {
    let html = page(
        "<script type=\"application/ld+json\">{\"author\":[\"https://example.com/jane\",\"Jane\"]}</script>",
        "",
    );
    let d = scan_html(&html);
    let a = resolve_authors(&d);
    assert_eq!(a.len(), 1);
    assert!(a.contains_name("Jane"));
}

#[test]
fn authors_from_rel_author_link() {
    let html = page("", "<a rel=\"author\" href=\"/about\">  Mary   Major </a>");
    let d = scan_html(&html);
    let a = resolve_authors(&d);
    assert_eq!(a.len(), 1);
    assert!(a.contains_name("Mary Major"));
}

#[test]
fn authors_from_microdata() {
    let html = page(
        "",
        "<div itemscope><span itemprop=\"author\"><span itemprop=\"name\">Ann B</span></span></div>",
    );
    let d = scan_html(&html);
    let a = resolve_authors(&d);
    assert_eq!(a.len(), 1);
    assert!(a.contains_name("Ann B"));
}

#[test]
fn authors_from_microformats() {
    let html = page(
        "",
        "<article class=\"h-entry\"><span class=\"p-author\">Carl  Case</span></article>",
    );
    let d = scan_html(&html);
    let a = resolve_authors(&d);
    assert!(a.contains_name("Carl Case"));
}

#[test]
fn authors_from_address_prefers_article() {
    let html = page(
        "",
        "<article><address>In Article</address></article><footer><address>In Footer</address></footer>",
    );
    let d = scan_html(&html);
    let a = resolve_authors(&d);
    assert_eq!(a.len(), 1);
    assert!(a.contains_name("In Article"));
}

#[test]
fn authors_from_dublin_core_creator() {
    let html = page("<meta name=\"DC.creator\" content=\"D. C. Author\">", "");
    let d = scan_html(&html);
    let a = resolve_authors(&d);
    assert_eq!(a.len(), 1);
    assert!(a.contains_name("D. C. Author"));
}

#[test]
fn description_meta_is_case_insensitive() {
    let html = page("<meta name=\"Description\" content=\"  A  summary \">", "");
    let d = scan_html(&html);
    assert_eq!(resolve_description(&d, &None), Some(String::from("A summary")));
}

#[test]
fn description_from_manifest_body() {
    let html = page("<link rel=\"manifest\" href=\"/m.json\">", "");
    let d = scan_html(&html);
    assert_eq!(
        description_manifest_request(&d, BASE),
        Some(String::from("https://example.com/m.json"))
    );
    let body = Some(String::from("{\"description\":\" From  manifest \"}"));
    assert_eq!(resolve_description(&d, &body), Some(String::from("From manifest")));
    assert_eq!(resolve_description(&d, &None), None);
}

#[test]
fn thumbnail_from_og_image_relative() {
    let html = page("<meta property=\"og:image\" content=\"/img.png\">", "");
    let d = scan_html(&html);
    assert_eq!(
        resolve_thumbnail(&d, BASE, &None),
        Some(String::from("https://example.com/img.png"))
    );
}

#[test]
fn thumbnail_og_secure_url_comes_first() {
    let html = page(
        "<meta property=\"og:image\" content=\"https://x/plain.png\"><meta property=\"og:image:secure_url\" content=\"https://x/secure.png\">",
        "",
    );
    let d = scan_html(&html);
    assert_eq!(resolve_thumbnail(&d, BASE, &None), Some(String::from("https://x/secure.png")));
}

#[test]
fn thumbnail_rejects_data_uri_candidate() {
    let html = page("<meta property=\"og:image\" content=\"data:image/png;base64,AA\">", "");
    let d = scan_html(&html);
    assert_eq!(resolve_thumbnail(&d, BASE, &None), None);
}

#[test]
fn thumbnail_representative_image_is_preferred() {
    let html = page(
        "<script type=\"application/ld+json\">[{\"image\":\"https://x/1.png\"},{\"image\":{\"representativeOfPage\":true,\"contentUrl\":\"https://x/2.png\"}}]</script>",
        "",
    );
    let d = scan_html(&html);
    assert_eq!(resolve_thumbnail(&d, BASE, &None), Some(String::from("https://x/2.png")));
}

#[test]
fn thumbnail_primary_image_gated_on_webpage_type() {
    let html = page(
        "<script type=\"application/ld+json\">{\"@type\":\"Article\",\"primaryImageOfPage\":\"https://x/a.png\",\"image\":\"https://x/b.png\"}</script>",
        "",
    );
    let d = scan_html(&html);
    assert_eq!(resolve_thumbnail(&d, BASE, &None), Some(String::from("https://x/b.png")));
}

#[test]
fn thumbnail_from_oembed_body() {
    let html = page(
        "<link rel=\"alternate\" type=\"application/json+oembed\" href=\"/oembed?format=json+oembed\">",
        "",
    );
    let d = scan_html(&html);
    assert_eq!(
        thumbnail_oembed_request(&d, BASE),
        Some(String::from("https://example.com/oembed?format=json+oembed"))
    );
    let body = Some(String::from("{\"thumbnail_url\":\"https://img.example.org/t.png\"}"));
    assert_eq!(
        resolve_thumbnail(&d, BASE, &body),
        Some(String::from("https://img.example.org/t.png"))
    );
    assert_eq!(resolve_thumbnail(&d, BASE, &None), None);
}

#[test]
fn oembed_photo_url_is_the_fallback_key() {
    let html = page(
        "<link rel=\"alternate\" type=\"application/json+oembed\" href=\"https://x/json+oembed\">",
        "",
    );
    let d = scan_html(&html);
    let body = Some(String::from("{\"url\":\"https://img.example.org/photo.png\"}"));
    assert_eq!(
        resolve_thumbnail(&d, BASE, &body),
        Some(String::from("https://img.example.org/photo.png"))
    );
}

#[test]
fn thumbnail_from_amp_story_poster() {
    let html = page("", "<amp-story poster-portrait-src=\"/poster.png\"></amp-story>");
    let d = scan_html(&html);
    assert_eq!(
        resolve_thumbnail(&d, BASE, &None),
        Some(String::from("https://example.com/poster.png"))
    );
}

#[test]
fn thumbnail_from_rel_image_src_last_resort() {
    let html = page("<link rel=\"image_src\" href=\"https://x/i.png\">", "");
    let d = scan_html(&html);
    assert_eq!(resolve_thumbnail(&d, BASE, &None), Some(String::from("https://x/i.png")));
}
