use opencord::domain::rate_limit::{
    attachment_presign_bucket, attachment_upload_bucket, auth_login_bucket, auth_register_bucket,
    compat_gateway_identify_bucket, compat_rest_bot_bucket, message_create_bucket, FixedWindowRateLimiter,
    NANOS_PER_SECOND,
};

const APP: u128 = 0x0190_0000_0000_7000_8000_0000_0000_0001;
const CHANNEL: u128 = 0x0190_0000_0000_7000_8000_0000_0000_0002;

#[test]
fn window_admits_at_most_limit() {
    let mut limiter = FixedWindowRateLimiter::with_window_seconds(3, 60);
    let t = NANOS_PER_SECOND;
    let a = limiter.check_at("b".to_string(), t);
    let b = limiter.check_at("b".to_string(), 2 * t);
    let c = limiter.check_at("b".to_string(), 3 * t);
    let d = limiter.check_at("b".to_string(), 4 * t);
    assert!(a.allowed && b.allowed && c.allowed);
    assert_eq!((a.remaining, b.remaining, c.remaining), (2, 1, 0));
    assert!(!d.allowed);
    assert_eq!(d.remaining, 0);
    assert_eq!(d.limit, 3);
    assert_eq!(d.bucket, "b");
    assert_eq!(d.reset_after_seconds, 57);
}

#[test]
fn elapsed_window_resets_the_count() {
    let mut limiter = FixedWindowRateLimiter::with_window_seconds(1, 5);
    let t = NANOS_PER_SECOND;
    assert!(limiter.check_at("k".to_string(), 0).allowed);
    assert!(!limiter.check_at("k".to_string(), 4 * t).allowed);
    let again = limiter.check_at("k".to_string(), 5 * t);
    assert!(again.allowed);
    assert_eq!(again.remaining, 0);
    assert_eq!(again.reset_after_seconds, 5);
}

#[test]
fn buckets_are_counted_apart() {
    let mut limiter = FixedWindowRateLimiter::with_window_seconds(1, 60);
    assert!(limiter.check_at("a".to_string(), 0).allowed);
    assert!(limiter.check_at("b".to_string(), 0).allowed);
    assert!(!limiter.check_at("a".to_string(), 1).allowed);
}

#[test]
fn reset_is_at_least_one_second() {
    let mut limiter = FixedWindowRateLimiter::with_window_seconds(2, 60);
    assert!(limiter.check_at("x".to_string(), 0).allowed);
    let late = limiter.check_at("x".to_string(), 59 * NANOS_PER_SECOND + NANOS_PER_SECOND / 2);
    assert_eq!(late.reset_after_seconds, 1);
}

#[test]
fn named_limiters_use_the_documented_limits() {
    let mut webhook = FixedWindowRateLimiter::public_webhook_execution();
    for _ in 0..5 {
        assert!(webhook.check("hook".to_string()).allowed);
    }
    assert!(!webhook.check("hook".to_string()).allowed);
    let mut rest = FixedWindowRateLimiter::compat_rest_bot();
    for _ in 0..10 {
        assert!(rest.check("bot".to_string()).allowed);
    }
    let refused = rest.check("bot".to_string());
    assert!(!refused.allowed);
    assert_eq!(refused.limit, 10);
    let mut identify = FixedWindowRateLimiter::compat_gateway_identify();
    assert!(identify.check("id".to_string()).allowed);
    assert!(!identify.check("id".to_string()).allowed);
}

#[test]
fn bucket_keys() {
    assert_eq!(auth_register_bucket("  Ada@Example.COM "), "auth:register:ada@example.com");
    assert_eq!(auth_login_bucket("Bob@x.io"), "auth:login:bob@x.io");
    assert_eq!(compat_rest_bot_bucket(APP), "compat-rest:bot:01900000-0000-7000-8000-000000000001");
    assert_eq!(compat_gateway_identify_bucket(APP), "compat-gateway:identify:01900000-0000-7000-8000-000000000001");
    assert_eq!(
        message_create_bucket(APP, CHANNEL),
        "message:create:01900000-0000-7000-8000-000000000001:01900000-0000-7000-8000-000000000002"
    );
    assert_eq!(
        attachment_presign_bucket(APP, CHANNEL),
        "attachment:presign:01900000-0000-7000-8000-000000000001:01900000-0000-7000-8000-000000000002"
    );
    assert_eq!(attachment_upload_bucket(APP), "attachment:upload:01900000-0000-7000-8000-000000000001");
}

#[test]
fn first_request_resets_after_the_whole_window() {
    let mut limiter = FixedWindowRateLimiter::new(2, std::time::Duration::from_secs(90));
    let d = limiter.check("b".to_string());
    assert!(d.allowed);
    assert_eq!(d.remaining, 1);
    assert!(d.reset_after_seconds >= 89 && d.reset_after_seconds <= 90);
    let mut zero = FixedWindowRateLimiter::with_window_seconds(0, 60);
    let z = zero.check_at("b".to_string(), 5);
    assert!(!z.allowed);
    assert_eq!(z.remaining, 0);
    assert_eq!(z.reset_after_seconds, 60);
}
