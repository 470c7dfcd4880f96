use recurring_remittance::rate_limiter::RateLimitError;
use recurring_remittance::rate_limiter::RateLimiter;
use recurring_remittance::rate_limiter::TimeWindow;

const ADMIN: u64 = 1;
const CALLER: u64 = 2;

#[test]
fn test_init_rate_limit() {
    let mut limiter = RateLimiter::new();
    let function_name = "test_func".to_string();

    let result =
        limiter.init_rate_limit(ADMIN, function_name, 10u32, TimeWindow::PerMinute, 0u64);

    assert!(result.is_ok());
}

#[test]
fn test_check_rate_limit() {
    let mut limiter = RateLimiter::new();
    let function_name = "test_func".to_string();

    limiter
        .init_rate_limit(ADMIN, function_name.clone(), 5u32, TimeWindow::PerMinute, 0u64)
        .unwrap();

    // five calls within the window succeed
    for _ in 0..5 {
        let result = limiter.check_rate_limit(CALLER, function_name.clone(), 0);
        assert!(result.is_ok());
    }

    // the sixth exceeds the budget
    let result = limiter.check_rate_limit(CALLER, function_name, 0);
    assert_eq!(result, Err(RateLimitError::LimitExceeded));
}

#[test]
fn test_whitelist() {
    let mut limiter = RateLimiter::new();
    let whitelisted = CALLER;
    let function_name = "test_func".to_string();

    limiter
        .init_rate_limit(ADMIN, function_name.clone(), 1u32, TimeWindow::PerMinute, 0u64)
        .unwrap();

    limiter.add_to_whitelist(ADMIN, whitelisted);

    // a whitelisted caller bypasses the limit of one
    let result1 = limiter.check_rate_limit(whitelisted, function_name.clone(), 0);
    assert!(result1.is_ok());

    let result2 = limiter.check_rate_limit(whitelisted, function_name, 0);
    assert!(result2.is_ok());
}

#[test]
fn test_get_rate_limit_status() {
    let mut limiter = RateLimiter::new();
    let function_name = "test_func".to_string();

    limiter
        .init_rate_limit(ADMIN, function_name.clone(), 10u32, TimeWindow::PerMinute, 0u64)
        .unwrap();

    let status = limiter.get_rate_limit_status(CALLER, function_name, 0).unwrap();
    assert_eq!(status.calls_remaining, 10);
    assert!(!status.is_limited);
}

#[test]
fn test_init_rate_limit_validation() {
    let mut limiter = RateLimiter::new();
    assert_eq!(
        limiter.init_rate_limit(ADMIN, "f".to_string(), 0, TimeWindow::PerHour, 0),
        Err(RateLimitError::MaxCallsZero)
    );
    assert_eq!(
        limiter.init_rate_limit(ADMIN, "f".to_string(), 3, TimeWindow::Custom, 0),
        Err(RateLimitError::CustomWindowWithoutSeconds)
    );
    // nothing was configured by the failed calls
    assert_eq!(
        limiter.check_rate_limit(CALLER, "f".to_string(), 0),
        Err(RateLimitError::NotConfigured)
    );
}

#[test]
fn test_check_unconfigured_function() {
    let mut limiter = RateLimiter::new();
    assert_eq!(
        limiter.check_rate_limit(CALLER, "unknown".to_string(), 0),
        Err(RateLimitError::NotConfigured)
    );
    assert_eq!(
        limiter.get_rate_limit_status(CALLER, "unknown".to_string(), 0),
        Err(RateLimitError::NotConfigured)
    );
}

#[test]
fn test_window_rolls_over_after_elapsing() {
    let mut limiter = RateLimiter::new();
    let name = "send".to_string();
    limiter.init_rate_limit(ADMIN, name.clone(), 1, TimeWindow::PerMinute, 0).unwrap();

    assert!(limiter.check_rate_limit(CALLER, name.clone(), 0).is_ok());
    // still inside the sixty-second window
    assert_eq!(
        limiter.check_rate_limit(CALLER, name.clone(), 30),
        Err(RateLimitError::LimitExceeded)
    );
    // the window has fully elapsed; counting restarts
    assert!(limiter.check_rate_limit(CALLER, name.clone(), 60).is_ok());
    assert_eq!(
        limiter.check_rate_limit(CALLER, name, 90),
        Err(RateLimitError::LimitExceeded)
    );
}

#[test]
fn test_custom_window_length() {
    let mut limiter = RateLimiter::new();
    let name = "sync".to_string();
    limiter.init_rate_limit(ADMIN, name.clone(), 1, TimeWindow::Custom, 10).unwrap();

    assert!(limiter.check_rate_limit(CALLER, name.clone(), 0).is_ok());
    assert_eq!(
        limiter.check_rate_limit(CALLER, name.clone(), 9),
        Err(RateLimitError::LimitExceeded)
    );
    assert!(limiter.check_rate_limit(CALLER, name, 10).is_ok());
}

#[test]
fn test_reset_rate_limit_restores_budget() {
    let mut limiter = RateLimiter::new();
    let name = "send".to_string();
    limiter.init_rate_limit(ADMIN, name.clone(), 1, TimeWindow::PerDay, 0).unwrap();

    assert!(limiter.check_rate_limit(CALLER, name.clone(), 0).is_ok());
    assert_eq!(
        limiter.check_rate_limit(CALLER, name.clone(), 1),
        Err(RateLimitError::LimitExceeded)
    );

    assert!(limiter.reset_rate_limit(ADMIN, CALLER, name.clone(), 2));
    assert!(limiter.check_rate_limit(CALLER, name, 2).is_ok());
}

#[test]
fn test_status_counts_down_and_reports_exhaustion() {
    let mut limiter = RateLimiter::new();
    let name = "send".to_string();
    limiter.init_rate_limit(ADMIN, name.clone(), 2, TimeWindow::PerMinute, 0).unwrap();

    limiter.check_rate_limit(CALLER, name.clone(), 5).unwrap();
    let status = limiter.get_rate_limit_status(CALLER, name.clone(), 5).unwrap();
    assert_eq!(status.calls_remaining, 1);
    assert_eq!(status.window_start, 5);
    assert_eq!(status.window_end, 65);
    assert!(!status.is_limited);

    limiter.check_rate_limit(CALLER, name.clone(), 6).unwrap();
    let status = limiter.get_rate_limit_status(CALLER, name, 6).unwrap();
    assert_eq!(status.calls_remaining, 0);
    assert!(status.is_limited);
}

#[test]
fn test_whitelist_membership_and_removal() {
    let mut limiter = RateLimiter::new();
    let name = "send".to_string();
    limiter.init_rate_limit(ADMIN, name.clone(), 1, TimeWindow::PerMinute, 0).unwrap();

    assert!(!limiter.is_whitelisted(CALLER));
    limiter.add_to_whitelist(ADMIN, CALLER);
    limiter.add_to_whitelist(ADMIN, CALLER);
    assert!(limiter.is_whitelisted(CALLER));
    assert_eq!(limiter.get_whitelist(), vec![CALLER]);

    limiter.remove_from_whitelist(ADMIN, CALLER);
    assert!(!limiter.is_whitelisted(CALLER));
    assert!(limiter.get_whitelist().is_empty());

    // limits apply again once off the whitelist
    assert!(limiter.check_rate_limit(CALLER, name.clone(), 0).is_ok());
    assert_eq!(
        limiter.check_rate_limit(CALLER, name, 1),
        Err(RateLimitError::LimitExceeded)
    );
}

#[test]
fn test_limits_are_tracked_per_caller_and_function() {
    let mut limiter = RateLimiter::new();
    let send = "send".to_string();
    let sync = "sync".to_string();
    limiter.init_rate_limit(ADMIN, send.clone(), 1, TimeWindow::PerMinute, 0).unwrap();
    limiter.init_rate_limit(ADMIN, sync.clone(), 1, TimeWindow::PerMinute, 0).unwrap();

    assert!(limiter.check_rate_limit(CALLER, send.clone(), 0).is_ok());
    // another function and another caller have budgets of their own
    assert!(limiter.check_rate_limit(CALLER, sync, 0).is_ok());
    assert!(limiter.check_rate_limit(ADMIN, send.clone(), 0).is_ok());
    assert_eq!(
        limiter.check_rate_limit(CALLER, send, 1),
        Err(RateLimitError::LimitExceeded)
    );
}
