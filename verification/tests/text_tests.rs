use libspy::strops::{has_word, looks_like_url, str_contains, str_eq_ci, str_le};
use libspy::tag::Tag;
use libspy::template::Template;
use libspy::text::{collapse_ws, str_eq, trim_at};

#[test]
fn normalize_collapses_runs_and_trims() {
    assert_eq!(collapse_ws("  a\t\n b "), "a b");
    assert_eq!(collapse_ws("x"), "x");
    assert_eq!(collapse_ws("   "), "");
    assert_eq!(collapse_ws(""), "");
    assert_eq!(collapse_ws("a\u{00A0}\u{2003}b"), "a b");
    assert_eq!(collapse_ws("\u{3000}tidy\u{3000}"), "tidy");
}

#[test]
fn normalize_output_has_no_adjacent_whitespace() {
    let cases = ["  a\t\n b ", "x  y   z", " \r\n ", "a b c", "\u{2028}line\u{2029}sep\u{2028}"];
    for s in cases {
        let out = collapse_ws(s);
        let chars: Vec<char> = out.chars().collect();
        if let Some(first) = chars.first() {
            assert!(!first.is_whitespace());
        }
        if let Some(last) = chars.last() {
            assert!(!last.is_whitespace());
        }
        for w in chars.windows(2) {
            assert!(!(w[0].is_whitespace() && w[1].is_whitespace()));
        }
    }
}

#[test]
fn trim_at_strips_one_handle_sign() {
    assert_eq!(trim_at("@jdoe"), "jdoe");
    assert_eq!(trim_at("  @jdoe  "), "jdoe");
    assert_eq!(trim_at("@@jdoe"), "@jdoe");
    assert_eq!(trim_at("jdoe"), "jdoe");
    assert_eq!(trim_at("@"), "");
}

#[test]
fn looks_like_url_matches_http_prefixes() {
    assert!(looks_like_url("http://example.com"));
    assert!(looks_like_url("HTTPS://example.com/x"));
    assert!(!looks_like_url("ftp://example.com"));
    assert!(!looks_like_url("Jane Doe"));
}

#[test]
fn string_predicates() {
    assert!(str_eq("abc", "abc"));
    assert!(!str_eq("abc", "abd"));
    assert!(str_eq_ci("Description", "description"));
    assert!(!str_eq_ci("Descripti0n", "description"));
    assert!(str_contains("application/json+oembed", "json+oembed"));
    assert!(!str_contains("text/xml+oembed", "json+oembed"));
    assert!(has_word("alternate stylesheet", "alternate"));
    assert!(has_word("manifest", "manifest"));
    assert!(!has_word("alternates", "alternate"));
    assert!(!has_word("", "manifest"));
    assert!(str_le("alice", "bob"));
    assert!(!str_le("bob", "alice"));
    assert!(str_le("abc", "abc"));
}

#[test]
fn tag_validation() {
    assert_eq!(Tag::try_from("  RustLang "), Ok(Tag(String::from("rustlang"))));
    assert_eq!(Tag::try_from("A-b_9"), Ok(Tag(String::from("a-b_9"))));
    assert_eq!(Tag::try_from(""), Err(()));
    assert_eq!(Tag::try_from("   "), Err(()));
    assert_eq!(Tag::try_from("has space"), Err(()));
    assert_eq!(Tag::try_from("ünïcode"), Err(()));
    assert_eq!(Tag::try_from("abcdefghijklmnopqrstuvwxyz01234"), Err(()));
    assert_eq!(
        Tag::try_from("abcdefghijklmnopqrstuvwxyz0123"),
        Ok(Tag(String::from("abcdefghijklmnopqrstuvwxyz0123")))
    );
}

#[test]
fn template_wraps_string() {
    let t = Template::new(String::from("{{ title }}"));
    assert_eq!(t.0, "{{ title }}");
}
