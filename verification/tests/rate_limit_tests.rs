use server::net::IpLiteral;
use server::rate_limit::{update_window, LoginRateLimiter, RateWindow, RATE_WINDOW_NANOS};

#[test]
fn allows_up_to_the_limit_per_window() {
    let mut limiter = LoginRateLimiter::per_minute(2);
    let address = IpLiteral::V4(0x0a00_0001);
    assert!(limiter.allow(address, 0));
    assert!(limiter.allow(address, 1));
    assert!(!limiter.allow(address, 2));
    assert!(limiter.allow(IpLiteral::V4(0x0a00_0002), 2));
    assert!(!limiter.allow(address, RATE_WINDOW_NANOS - 1));
    assert!(limiter.allow(address, RATE_WINDOW_NANOS));
}

#[test]
fn first_start_is_allowed_even_with_zero_limit() {
    let mut limiter = LoginRateLimiter::per_minute(0);
    let address = IpLiteral::V6(1);
    assert!(limiter.allow(address, 0));
    assert!(!limiter.allow(address, 1));
}

#[test]
fn cleanup_forgets_finished_windows() {
    let mut limiter = LoginRateLimiter::per_minute(1);
    limiter.allow(IpLiteral::V4(1), 0);
    limiter.allow(IpLiteral::V4(2), 30_000_000_000);
    assert_eq!(limiter.cleanup(RATE_WINDOW_NANOS), 1);
    assert!(!limiter.allow(IpLiteral::V4(2), RATE_WINDOW_NANOS));
    assert!(limiter.allow(IpLiteral::V4(1), RATE_WINDOW_NANOS));
}

#[test]
fn windows_restart_after_their_length() {
    let mut window = RateWindow { started_at: 10, count: 3 };
    assert!(!update_window(&mut window, 20, 3, 100));
    assert_eq!(window, RateWindow { started_at: 10, count: 3 });
    assert!(update_window(&mut window, 110, 3, 100));
    assert_eq!(window, RateWindow { started_at: 110, count: 1 });
    assert!(update_window(&mut window, 5, 3, 100));
    assert_eq!(window, RateWindow { started_at: 110, count: 2 });
}

#[test]
fn address_families_are_counted_apart() {
    let mut limiter = LoginRateLimiter::per_minute(1);
    assert!(limiter.allow(IpLiteral::V4(1), 0));
    assert!(limiter.allow(IpLiteral::V6(1), 0));
    assert!(!limiter.allow(IpLiteral::V4(1), 1));
    assert!(!limiter.allow(IpLiteral::V6(1), 1));
    assert_eq!(limiter.cleanup(RATE_WINDOW_NANOS), 2);
    assert_eq!(limiter.cleanup(RATE_WINDOW_NANOS), 0);
}
