use watchbot::text::{dec_string, parse_u32, replace, str_eq, tokenize};

#[test]
fn string_equality_by_characters() {
    assert!(str_eq("abc", "abc"));
    assert!(!str_eq("abc", "abd"));
    assert!(!str_eq("abc", "abcd"));
    assert!(str_eq("", ""));
}

#[test]
fn decimal_rendering() {
    assert_eq!("0", dec_string(0));
    assert_eq!("7", dec_string(7));
    assert_eq!("12345", dec_string(12345));
    assert_eq!("4294967295", dec_string(u32::MAX as u128));
}

#[test]
fn numeral_parsing() {
    assert_eq!(Some(0), parse_u32("0"));
    assert_eq!(Some(12345), parse_u32("12345"));
    assert_eq!(Some(u32::MAX), parse_u32("4294967295"));
    assert_eq!(None, parse_u32("4294967296"));
    assert_eq!(None, parse_u32(""));
    assert_eq!(None, parse_u32("12x"));
    assert_eq!(None, parse_u32("-3"));
}

#[test]
fn replacement_is_left_to_right_without_rescanning() {
    assert_eq!("Bob and Bob", replace("{nick} and {nick}", "{nick}", "Bob"));
    assert_eq!("unchanged", replace("unchanged", "{nick}", "Bob"));
    assert_eq!("aba", replace("aba", "abab", "x"));
    assert_eq!("xx", replace("aaaa", "aa", "x"));
    assert_eq!("topic here", replace(".topic topic here", ".topic ", ""));
}

#[test]
fn tokenizing_splits_on_whitespace_runs() {
    assert_eq!(
        vec![String::from(".roll"), String::from("2d6")],
        tokenize(".roll   2d6")
    );
    assert_eq!(Vec::<String>::new(), tokenize("   "));
    assert_eq!(
        vec![String::from("a"), String::from("b"), String::from("c")],
        tokenize("\ta b\nc\r")
    );
}
