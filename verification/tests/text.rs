use reborn::text::{decimal_string, join_path, trim};

#[test]
fn trim_cuts_white_space_at_both_ends() {
    assert_eq!(trim("  a b \t\n"), "a b");
    assert_eq!(trim(""), "");
    assert_eq!(trim("   "), "");
    assert_eq!(trim("\u{3000}x\u{A0}"), "x");
}

#[test]
fn decimal_writes_numbers() {
    assert_eq!(decimal_string(0), "0");
    assert_eq!(decimal_string(7), "7");
    assert_eq!(decimal_string(1234567890), "1234567890");
    assert_eq!(decimal_string(u64::MAX), "18446744073709551615");
}

#[test]
fn join_path_puts_one_slash_between() {
    assert_eq!(join_path("dir", "file"), "dir/file");
    assert_eq!(join_path("dir/", "file"), "dir/file");
    assert_eq!(join_path("", "file"), "file");
}
