use nauto::text::{str_contains, str_eq, trim_str, u64_to_dec, usize_to_dec};

#[test]
fn substring_search_is_exact() {
    assert!(str_contains("ntp server 1.1.1.1", "ntp server"));
    assert!(str_contains("abc", ""));
    assert!(!str_contains("", "a"));
    assert!(!str_contains("transport input ssh", "telnet"));
    assert!(str_contains("aaab", "aab"));
}

#[test]
fn string_equality_is_by_characters() {
    assert!(str_eq("show version", "show version"));
    assert!(!str_eq("show version", "show versioN"));
    assert!(!str_eq("a", "ab"));
}

#[test]
fn trimming_strips_both_ends() {
    assert_eq!(trim_str("  cisco_ios \t\n"), "cisco_ios");
    assert_eq!(trim_str(""), "");
    assert_eq!(trim_str(" \t "), "");
    assert_eq!(trim_str("a b"), "a b");
}

#[test]
fn decimal_rendering_matches_the_value() {
    assert_eq!(u64_to_dec(0), "0");
    assert_eq!(u64_to_dec(7), "7");
    assert_eq!(u64_to_dec(1234), "1234");
    assert_eq!(u64_to_dec(u64::MAX), u64::MAX.to_string());
    assert_eq!(usize_to_dec(42), "42");
}
