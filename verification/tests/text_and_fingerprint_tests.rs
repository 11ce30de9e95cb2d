//! Fingerprints, previews, substring search, integer parsing and path
//! extensions.

use everypaste::compute_hash;
use everypaste::text::{eq_ignore_ascii_upper, extension_of, make_preview, parse_i32, str_contains, str_eq, trim_str};

#[test]
fn fingerprint_is_deterministic() {
    // Identical byte payloads always yield identical fingerprints.
    assert_eq!(compute_hash(b"payload"), compute_hash(b"payload"));
    assert_eq!(compute_hash(&[]), compute_hash(&[]));
}

#[test]
fn fingerprints_of_distinct_payloads_differ() {
    let payloads: [&[u8]; 5] = [b"", b"a", b"b", b"ab", b"payload"];
    for (i, a) in payloads.iter().enumerate() {
        for (j, b) in payloads.iter().enumerate() {
            if i != j {
                assert_ne!(compute_hash(a), compute_hash(b));
            }
        }
    }
}

#[test]
fn fingerprint_is_hex_of_fixed_width() {
    let h = compute_hash(b"hello");
    assert_eq!(h.len(), 64);
    assert!(h.chars().all(|c| c.is_ascii_hexdigit() && !c.is_ascii_uppercase()));
    // The digest is not the payload handed back.
    assert_ne!(h.as_bytes(), b"hello");
}

#[test]
fn trim_removes_surrounding_whitespace() {
    assert_eq!(trim_str("  hello \t\n"), "hello");
    assert_eq!(trim_str("nothing to do"), "nothing to do");
    assert_eq!(trim_str("   \t  "), "");
    assert_eq!(trim_str(""), "");
    assert_eq!(trim_str(" inner  space "), "inner  space");
}

#[test]
fn preview_trims_and_truncates_with_ellipsis() {
    assert_eq!(make_preview("  short  ", 100), "short");
    let long: String = "x".repeat(150);
    let preview = make_preview(&long, 100);
    assert_eq!(preview.chars().count(), 103);
    assert!(preview.ends_with("..."));
    assert!(preview.starts_with("xxx"));
    // Exactly at the cap: no ellipsis.
    let exact: String = "y".repeat(100);
    assert_eq!(make_preview(&exact, 100), exact);
}

#[test]
fn substring_search_is_case_sensitive() {
    assert!(str_contains("the quick brown fox", "quick"));
    assert!(str_contains("abc", ""));
    assert!(str_contains("abc", "abc"));
    assert!(!str_contains("abc", "abcd"));
    assert!(!str_contains("the quick", "Quick"));
    assert!(str_contains("", ""));
    assert!(!str_contains("", "a"));
}

#[test]
fn parse_accepts_what_rust_accepts() {
    assert_eq!(parse_i32("100"), Some(100));
    assert_eq!(parse_i32("-1"), Some(-1));
    assert_eq!(parse_i32("+42"), Some(42));
    assert_eq!(parse_i32("0007"), Some(7));
    assert_eq!(parse_i32("2147483647"), Some(i32::MAX));
    assert_eq!(parse_i32("-2147483648"), Some(i32::MIN));
    assert_eq!(parse_i32("2147483648"), None);
    assert_eq!(parse_i32("-2147483649"), None);
    assert_eq!(parse_i32("99999999999999999999"), None);
    assert_eq!(parse_i32(""), None);
    assert_eq!(parse_i32("-"), None);
    assert_eq!(parse_i32("+"), None);
    assert_eq!(parse_i32("12a"), None);
    assert_eq!(parse_i32(" 12"), None);
    assert_eq!(parse_i32("1 2"), None);
}

#[test]
fn extension_follows_the_last_dot_of_the_final_component() {
    assert_eq!(extension_of("/tmp/shot.png").as_deref(), Some("png"));
    assert_eq!(extension_of("shot.PNG").as_deref(), Some("PNG"));
    assert_eq!(extension_of("/tmp/archive.tar.gz").as_deref(), Some("gz"));
    assert_eq!(extension_of("C:\\shots\\pic.jpeg").as_deref(), Some("jpeg"));
    assert_eq!(extension_of("/tmp/noext"), None);
    assert_eq!(extension_of("/tmp/.hidden"), None);
    assert_eq!(extension_of("/tmp.d/noext"), None);
    assert_eq!(extension_of("trailing.").as_deref(), Some(""));
}

#[test]
fn ascii_case_insensitive_match() {
    assert!(eq_ignore_ascii_upper("PNG", "png"));
    assert!(eq_ignore_ascii_upper("JpEg", "jpeg"));
    assert!(eq_ignore_ascii_upper("gif", "gif"));
    assert!(!eq_ignore_ascii_upper("pngx", "png"));
    assert!(!eq_ignore_ascii_upper("pn", "png"));
    assert!(!eq_ignore_ascii_upper("qng", "png"));
}

#[test]
fn exact_string_equality() {
    assert!(str_eq("same", "same"));
    assert!(!str_eq("same", "Same"));
    assert!(!str_eq("same", "same "));
    assert!(str_eq("", ""));
}
