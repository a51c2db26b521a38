use uring_detect::digits::{parse_u32_digits, parse_u64_digits};
use uring_detect::process::parse_cmdline;
use uring_detect::sysinfo::kernel_release_meets_min;
use uring_detect::text::{split_str, str_contains, str_has_prefix, trim_str, Sep};

#[test]
fn split_on_nul_drops_empty_fragments() {
    let parts = split_str("foo\0bar\0", Sep::Exact('\0'));
    assert_eq!(parts, vec!["foo".to_string(), "bar".to_string()]);
}

#[test]
fn split_handles_runs_and_edges() {
    let parts = split_str("\0\0a\0\0b\0", Sep::Exact('\0'));
    assert_eq!(parts, vec!["a".to_string(), "b".to_string()]);
    let parts = split_str("", Sep::Exact('\0'));
    assert!(parts.is_empty());
    let parts = split_str("abc", Sep::Exact('\0'));
    assert_eq!(parts, vec!["abc".to_string()]);
}

#[test]
fn split_on_blank_takes_any_whitespace() {
    let parts = split_str("VmRSS:\t   1234 kB", Sep::Blank);
    assert_eq!(
        parts,
        vec!["VmRSS:".to_string(), "1234".to_string(), "kB".to_string()]
    );
}

#[test]
fn cmdline_two_arguments_with_trailing_nul() {
    // ["foo", "bar"] joined with null bytes and null-terminated parses
    // back to exactly ["foo", "bar"]: no trailing empty element.
    let args = parse_cmdline("foo\0bar\0").expect("two arguments");
    assert_eq!(args, vec!["foo".to_string(), "bar".to_string()]);
}

#[test]
fn cmdline_all_empty_means_no_command_line() {
    assert!(parse_cmdline("").is_none());
    assert!(parse_cmdline("\0").is_none());
    assert!(parse_cmdline("\0\0\0").is_none());
}

#[test]
fn contains_and_prefix() {
    assert!(str_contains("anon_inode:[io_uring]", "io_uring"));
    assert!(str_contains("abc", ""));
    assert!(!str_contains("abc", "abcd"));
    assert!(!str_contains("socket:[1234]", "io_uring"));
    assert!(str_has_prefix("VmRSS:  12", "VmRSS:"));
    assert!(!str_has_prefix("RSS: 12", "VmRSS:"));
}

#[test]
fn trim_removes_blank_edges() {
    assert_eq!(trim_str("  systemd\n"), "systemd");
    assert_eq!(trim_str("name"), "name");
    assert_eq!(trim_str(" \t\r\n "), "");
    assert_eq!(trim_str(""), "");
    assert_eq!(trim_str(" a b "), "a b");
}

#[test]
fn parse_digit_strings() {
    assert_eq!(parse_u64_digits("1234"), Some(1234));
    assert_eq!(parse_u64_digits("0"), Some(0));
    assert_eq!(parse_u64_digits(""), None);
    assert_eq!(parse_u64_digits("12a"), None);
    assert_eq!(parse_u64_digits("-3"), None);
    assert_eq!(parse_u64_digits("18446744073709551615"), Some(u64::MAX));
    assert_eq!(parse_u64_digits("18446744073709551616"), None);
    assert_eq!(parse_u32_digits("4294967295"), Some(u32::MAX));
    assert_eq!(parse_u32_digits("4294967296"), None);
}

#[test]
fn kernel_version_threshold() {
    assert!(kernel_release_meets_min("5.1.0"));
    assert!(kernel_release_meets_min("5.1"));
    assert!(kernel_release_meets_min("6.18.44-fc-v114"));
    assert!(kernel_release_meets_min("10.0"));
    assert!(!kernel_release_meets_min("5.0.9-generic"));
    assert!(!kernel_release_meets_min("4.19.0"));
    assert!(!kernel_release_meets_min("5"));
    assert!(!kernel_release_meets_min("five.one"));
    assert!(!kernel_release_meets_min("5.x.1"));
    assert!(!kernel_release_meets_min(""));
}
