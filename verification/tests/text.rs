use ferrite::text::{
    ends_with, has_char, replace_char, split_on, starts_with, str_lt, substring, trim, trim_end_char,
    trim_end_matches, trim_matches_char, trim_start_matches,
};

#[test]
fn trimming_follows_str_trim() {
    assert_eq!(trim("  a b \t\n"), "a b");
    assert_eq!(trim("\u{3000}x\u{a0}"), "x");
    assert_eq!(trim("   "), "");
    assert_eq!(trim_end_char("dist///", '/'), "dist");
    assert_eq!(trim_matches_char("\"\"q\"", '"'), "q");
    assert_eq!(trim_start_matches("abab-x", "ab"), "-x");
    assert_eq!(trim_end_matches("x.tar.tar", ".tar"), "x");
}

#[test]
fn splitting_and_prefixes() {
    assert_eq!(split_on("a,b;;c", &[',', ';']), vec!["a", "b", "", "c"]);
    assert_eq!(split_on("", &[',']), vec![""]);
    assert!(starts_with("/api/scan/1", "/api/scan/"));
    assert!(!starts_with("/api", "/api/"));
    assert!(ends_with("/api/scan/1/cancel", "/cancel"));
    assert_eq!(substring("héllo", 1, 3), "él");
    assert!(has_char("a*b", '*'));
    assert_eq!(replace_char("a\\b", '\\', '/'), "a/b");
}

#[test]
fn string_order_is_by_code_point() {
    assert!(str_lt("B", "a"));
    assert!(str_lt("ab", "abc"));
    assert!(!str_lt("abc", "abc"));
    assert!(str_lt("", "a"));
}
