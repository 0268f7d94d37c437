use kasetophono::text::{
    append, collapse_pairs, contains, from_chars, matches_at, replace_char, str_contains,
    strip_leading, tail_after_last, to_chars, trim,
};

fn chars(s: &str) -> Vec<char> {
    s.chars().collect()
}

#[test]
fn chars_and_back() {
    assert_eq!(to_chars("καλημέρα"), chars("καλημέρα"));
    assert_eq!(to_chars(""), Vec::<char>::new());
    assert_eq!(from_chars(&chars("4 εποχές")), "4 εποχές".to_string());
    assert_eq!(from_chars(&to_chars("a/b,c")), "a/b,c".to_string());
}

#[test]
fn substring_search() {
    assert!(str_contains("https://www.kasetophono.com/p/blog-page_28.html", "/p/"));
    assert!(!str_contains("http://www.kasetophono.com/search/label/Playlist", "/p/"));
    assert!(str_contains("abc", ""));
    assert!(str_contains("", ""));
    assert!(!str_contains("", "a"));
    assert!(!str_contains("ab", "abc"));
    assert!(str_contains("xxabc", "abc"));
    assert!(contains(&chars("aab"), &chars("ab")));
    assert!(matches_at(&chars("hello"), &chars("ll"), 2));
    assert!(!matches_at(&chars("hello"), &chars("ll"), 1));
    assert!(matches_at(&chars("hello"), &chars(""), 5));
    assert!(!matches_at(&chars("hello"), &chars(""), 6));
    assert!(!matches_at(&chars("hello"), &chars("lo!"), 3));
}

#[test]
fn trimming() {
    assert_eq!(trim(&chars("  \n\tΞενα \r\n")), chars("Ξενα"));
    assert_eq!(trim(&chars("a b")), chars("a b"));
    assert_eq!(trim(&chars(" \u{a0}\u{3000} ")), chars(""));
    assert_eq!(trim(&chars("")), chars(""));
    assert_eq!(trim(&chars("_x_")), chars("_x_"));
}

#[test]
fn leading_markers() {
    assert_eq!(strip_leading(&chars("__Νέες"), '_'), chars("Νέες"));
    assert_eq!(strip_leading(&chars("a_b"), '_'), chars("a_b"));
    assert_eq!(strip_leading(&chars("___"), '_'), chars(""));
    assert_eq!(strip_leading(&chars(""), '_'), chars(""));
}

#[test]
fn last_occurrence() {
    assert_eq!(tail_after_last(&chars("a/b/c"), '/'), chars("c"));
    assert_eq!(tail_after_last(&chars("a/b/"), '/'), chars(""));
    assert_eq!(tail_after_last(&chars("/"), '/'), chars(""));
    assert_eq!(tail_after_last(&chars(""), '/'), chars(""));
    assert_eq!(tail_after_last(&chars("abc"), '/'), chars("abc"));
    assert_eq!(tail_after_last(&chars("abc/"), '/'), chars(""));
}

#[test]
fn replacing() {
    assert_eq!(replace_char(&chars("AC/DC / live"), '/', '-'), chars("AC-DC - live"));
    assert_eq!(replace_char(&chars("plain"), '/', '-'), chars("plain"));
    assert_eq!(collapse_pairs(&chars("{\"a\":1,,\"b\":2}"), ','), chars("{\"a\":1,\"b\":2}"));
    assert_eq!(collapse_pairs(&chars(",,,"), ','), chars(",,"));
    assert_eq!(collapse_pairs(&chars(",,,,"), ','), chars(",,"));
    assert_eq!(collapse_pairs(&chars("a,b"), ','), chars("a,b"));
    assert_eq!(collapse_pairs(&chars(""), ','), chars(""));
    assert_eq!(collapse_pairs(&chars(",,,"), ','), chars(&",,,".replace(",,", ",")));
}

#[test]
fn appending() {
    let mut out = chars("2019");
    append(&mut out, &chars("/01"));
    assert_eq!(out, chars("2019/01"));
}
