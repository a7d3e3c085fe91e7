use vimg::expand::{glob_options, looks_like_glob};
use vimg::text::{contains_char, contains_str, decimal_string, str_eq, to_ascii_lower, trim_start_char};

#[test]
fn lowercase() {
    assert_eq!(to_ascii_lower("PnG-Ä"), "png-Ä");
}

#[test]
fn substrings() {
    assert!(contains_str("vimg-linux-x86_64.tar.gz", "linux-x86_64"));
    assert!(!contains_str("vimg-windows-x86_64.zip", "linux-x86_64"));
    assert!(contains_str("abc", ""));
    assert!(!contains_str("ab", "abc"));
    assert!(contains_char("a*b", '*'));
    assert!(!contains_char("ab", '*'));
    assert!(str_eq("x", "x"));
    assert!(!str_eq("x", "y"));
}

#[test]
fn trimming_and_numbers() {
    assert_eq!(trim_start_char("vv1.2.3", 'v'), "1.2.3");
    assert_eq!(trim_start_char("1.2", 'v'), "1.2");
    assert_eq!(decimal_string(0), "0");
    assert_eq!(decimal_string(7), "7");
    assert_eq!(decimal_string(1234567890), "1234567890");
    assert_eq!(decimal_string(u64::MAX), u64::MAX.to_string());
}

#[test]
fn glob_detection() {
    assert!(looks_like_glob("*.png"));
    assert!(looks_like_glob("img?.jpg"));
    assert!(looks_like_glob("[ab].png"));
    assert!(!looks_like_glob("photo.png"));
    assert!(glob_options(false).case_sensitive);
    assert!(!glob_options(true).case_sensitive);
    assert!(!glob_options(true).require_literal_separator);
    assert!(!glob_options(false).require_literal_leading_dot);
}
