use podbringer::strutil::{contains_substr, join, starts_with, str_eq, u64_to_dec};

#[test]
fn decimal_rendering() {
    assert_eq!(u64_to_dec(0), "0");
    assert_eq!(u64_to_dec(7), "7");
    assert_eq!(u64_to_dec(50), "50");
    assert_eq!(u64_to_dec(123_456), "123456");
    assert_eq!(u64_to_dec(u64::MAX), "18446744073709551615");
}

#[test]
fn joining_keywords() {
    assert_eq!(join(&Vec::new(), ", "), "");
    assert_eq!(join(&vec![String::from("one")], ", "), "one");
    assert_eq!(
        join(&vec![String::from("a"), String::from("b"), String::from("c")], ", "),
        "a, b, c"
    );
}

#[test]
fn substring_search() {
    assert!(contains_substr("audio/mp4; codecs", "mp4"));
    assert!(!contains_substr("audio/webm", "mp4"));
    assert!(contains_substr("anything", ""));
    assert!(!contains_substr("mp", "mp4"));
}

#[test]
fn prefix_and_equality() {
    assert!(starts_with("PL12345", "PL"));
    assert!(!starts_with("P", "PL"));
    assert!(str_eq("mixcloud", "mixcloud"));
    assert!(!str_eq("mixcloud", "mixcloud "));
}
