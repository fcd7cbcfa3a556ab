use webrtc_relay::text::{concat_spaces, decimal_string, has_prefix, push_signed_decimal};

fn strings(parts: &[&str]) -> Vec<String> {
    parts.iter().map(|p| p.to_string()).collect()
}

#[test]
fn test_concat_spaces() {
    assert_eq!(concat_spaces(&strings(&["a", "b", "c"])), "a b c ");
    assert_eq!(concat_spaces(&strings(&["a", "b"])), "a b ");
    assert_eq!(concat_spaces(&strings(&["a"])), "a ");
}

#[test]
fn concat_spaces_of_nothing_is_empty() {
    assert_eq!(concat_spaces(&Vec::new()), "");
}

#[test]
fn concat_spaces_keeps_inner_spaces() {
    assert_eq!(concat_spaces(&strings(&["  ! queue", "x y"])), "  ! queue x y ");
}

#[test]
fn decimal_rendering() {
    assert_eq!(decimal_string(0), "0");
    assert_eq!(decimal_string(7), "7");
    assert_eq!(decimal_string(10), "10");
    assert_eq!(decimal_string(1935), "1935");
    assert_eq!(decimal_string(u64::MAX), "18446744073709551615");
}

#[test]
fn signed_decimal_rendering() {
    let mut s = String::from("x=");
    push_signed_decimal(&mut s, -5);
    assert_eq!(s, "x=-5");
    let mut s = String::new();
    push_signed_decimal(&mut s, i64::MIN);
    assert_eq!(s, "-9223372036854775808");
    let mut s = String::new();
    push_signed_decimal(&mut s, 42);
    assert_eq!(s, "42");
}

#[test]
fn prefix_test() {
    assert!(has_prefix("rtp-outbound-stream-stats_1", "rtp-outbound-stream-stats_"));
    assert!(has_prefix("abc", ""));
    assert!(has_prefix("abc", "abc"));
    assert!(!has_prefix("ab", "abc"));
    assert!(!has_prefix("rtp-inbound-stream-stats_1", "rtp-outbound-stream-stats_"));
    assert!(has_prefix("äbc", "ä"));
}
