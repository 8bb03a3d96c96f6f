use libspy::urls::absolutise;

const BASE: &str = "https://example.com/dir/page";

#[test]
fn absolutise_rejects_data_uris() {
    assert_eq!(absolutise(BASE, "data:image/png;base64,AAAA"), None);
    assert_eq!(absolutise(BASE, "  data:text/plain,hi"), None);
}

#[test]
fn absolutise_rejects_fragments() {
    assert_eq!(absolutise(BASE, "#frag"), None);
    assert_eq!(absolutise(BASE, "   #top"), None);
}

#[test]
fn absolutise_accepts_absolute_http_urls_unchanged() {
    assert_eq!(absolutise(BASE, "https://x/y"), Some(String::from("https://x/y")));
    assert_eq!(absolutise(BASE, "http://x/y?q=1"), Some(String::from("http://x/y?q=1")));
}

#[test]
fn absolutise_keeps_the_candidate_exactly_as_written() {
    assert_eq!(
        absolutise(BASE, "HTTPS://EXAMPLE.ORG/A"),
        Some(String::from("HTTPS://EXAMPLE.ORG/A"))
    );
    assert_eq!(absolutise(BASE, "https://x"), Some(String::from("https://x")));
}

#[test]
fn absolutise_rejects_other_schemes() {
    assert_eq!(absolutise(BASE, "ftp://x/y"), None);
    assert_eq!(absolutise(BASE, "javascript:alert(1)"), None);
    assert_eq!(absolutise(BASE, "mailto:a@b.c"), None);
}

#[test]
fn absolutise_joins_relative_candidates() {
    assert_eq!(absolutise(BASE, "/y"), Some(String::from("https://example.com/y")));
    assert_eq!(absolutise(BASE, "img.png"), Some(String::from("https://example.com/dir/img.png")));
    assert_eq!(absolutise(BASE, "../up.png"), Some(String::from("https://example.com/up.png")));
    assert_eq!(
        absolutise(BASE, "//cdn.example.org/i.png"),
        Some(String::from("https://cdn.example.org/i.png"))
    );
}

#[test]
fn absolutise_trims_before_deciding() {
    assert_eq!(absolutise(BASE, "  /y  "), Some(String::from("https://example.com/y")));
    assert_eq!(absolutise(BASE, " https://x/y "), Some(String::from("https://x/y")));
}
