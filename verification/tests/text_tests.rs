use treeview::text::fmt_i64;
use treeview::text::fmt_u64;
use treeview::text::repeat_str;
use treeview::text::str_eq;

#[test]
fn unsigned_decimal_formatting() {
    assert_eq!(fmt_u64(0), "0");
    assert_eq!(fmt_u64(7), "7");
    assert_eq!(fmt_u64(10), "10");
    assert_eq!(fmt_u64(12345), "12345");
    assert_eq!(fmt_u64(u64::MAX), "18446744073709551615");
}

#[test]
fn signed_decimal_formatting() {
    assert_eq!(fmt_i64(0), "0");
    assert_eq!(fmt_i64(42), "42");
    assert_eq!(fmt_i64(-1), "-1");
    assert_eq!(fmt_i64(i64::MIN), "-9223372036854775808");
    assert_eq!(fmt_i64(i64::MAX), "9223372036854775807");
}

#[test]
fn repetition() {
    assert_eq!(repeat_str("    ", 0), "");
    assert_eq!(repeat_str("    ", 2), "        ");
    assert_eq!(repeat_str("ab", 3), "ababab");
}

#[test]
fn string_equality_by_characters() {
    assert!(str_eq("", ""));
    assert!(str_eq("abc", "abc"));
    assert!(!str_eq("abc", "abd"));
    assert!(!str_eq("abc", "ab"));
    assert!(str_eq("naïve", "naïve"));
}
