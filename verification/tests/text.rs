use ssr_server::text::{find, matches_at};

#[test]
fn find_gives_the_first_offset() {
    assert_eq!(find(b"abcabc", b"bc"), Some(1));
    assert_eq!(find(b"abcabc", b"abc"), Some(0));
    assert_eq!(find(b"aaab", b"ab"), Some(2));
    assert_eq!(find(b"abc", b"c"), Some(2));
}

#[test]
fn find_of_a_missing_pattern() {
    assert_eq!(find(b"abcabc", b"cb"), None);
    assert_eq!(find(b"ab", b"abc"), None);
    assert_eq!(find(b"", b"a"), None);
}

#[test]
fn find_of_the_empty_pattern() {
    assert_eq!(find(b"abc", b""), Some(0));
    assert_eq!(find(b"", b""), Some(0));
}

#[test]
fn matches_at_compares_in_place() {
    assert!(matches_at(b"abcabc", b"bca", 1));
    assert!(!matches_at(b"abcabc", b"bca", 0));
    assert!(matches_at(b"abc", b"", 3));
}
