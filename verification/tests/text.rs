use xposeit::config::{OPEN_TIMEOUT_SECS, POOL_WAIT_TIMEOUT_SECS};
use xposeit::text::decimal_text;

#[test]
fn decimal_forms() {
    assert_eq!(decimal_text(0), "0");
    assert_eq!(decimal_text(7), "7");
    assert_eq!(decimal_text(10), "10");
    assert_eq!(decimal_text(65535), "65535");
    assert_eq!(decimal_text(usize::MAX), usize::MAX.to_string());
}

#[test]
fn client_waits_longer_than_server_pool() {
    assert!(OPEN_TIMEOUT_SECS > POOL_WAIT_TIMEOUT_SECS);
}
