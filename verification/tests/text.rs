use verify_files::text::{
    chars_of, followed_by, contains_char, decimal_string, join_strings, pad_left_string, starts_with,
    starts_with_char, str_eq,
};

#[test]
fn decimal_numbers() {
    assert_eq!(decimal_string(0), "0");
    assert_eq!(decimal_string(7), "7");
    assert_eq!(decimal_string(10), "10");
    assert_eq!(decimal_string(1234567890), "1234567890");
    assert_eq!(decimal_string(usize::MAX), usize::MAX.to_string());
}

#[test]
fn padding_counts_characters() {
    assert_eq!(pad_left_string("7", 3), "  7");
    assert_eq!(pad_left_string("1234", 3), "1234");
    assert_eq!(pad_left_string("abc", 3), "abc");
    assert_eq!(pad_left_string("", 2), "  ");
    assert_eq!(pad_left_string("äö", 4), "  äö");
    assert_eq!(pad_left_string("x", 0), "x");
}

#[test]
fn joining() {
    let none: Vec<String> = vec![];
    assert_eq!(join_strings(&none, ", "), "");
    assert_eq!(join_strings(&vec!["a".to_string()], ", "), "a");
    assert_eq!(
        join_strings(&vec!["a".to_string(), "".to_string(), "c".to_string()], " -> "),
        "a ->  -> c"
    );
    assert_eq!(followed_by("ab", "cd"), "abcd");
}

#[test]
fn comparing_and_searching() {
    assert!(str_eq("", ""));
    assert!(str_eq("häh", "häh"));
    assert!(!str_eq("a", "b"));
    assert!(!str_eq("a", "ab"));
    assert_eq!(chars_of("aé"), vec!['a', 'é']);
    assert!(contains_char("a{b", '{'));
    assert!(!contains_char("ab", '{'));
    assert!(!contains_char("", '{'));
    assert!(starts_with_char(".a", '.'));
    assert!(!starts_with_char("a.", '.'));
    assert!(!starts_with_char("", '.'));
    assert!(starts_with("https://x", "https://"));
    assert!(starts_with("abc", ""));
    assert!(!starts_with("http:/", "http://"));
    assert!(!starts_with("xhttp://", "http://"));
}
