use mip_client::text::{decimal_string, lossy_string, push_decimal};

#[test]
fn decimal_of_small_and_large_numbers() {
    assert_eq!(decimal_string(0), "0");
    assert_eq!(decimal_string(7), "7");
    assert_eq!(decimal_string(10), "10");
    assert_eq!(decimal_string(12345), "12345");
    assert_eq!(decimal_string(u64::MAX), u64::MAX.to_string());
}

#[test]
fn push_decimal_appends() {
    let mut s = String::from("id=");
    push_decimal(&mut s, 907);
    assert_eq!(s, "id=907");
}

#[test]
fn lossy_string_keeps_valid_utf8() {
    assert_eq!(lossy_string("héllo".as_bytes()), "héllo");
}

#[test]
fn lossy_string_replaces_invalid_bytes() {
    assert_eq!(lossy_string(&[b'a', 0xFF, b'b']), "a\u{FFFD}b");
}
