use bevy_debugger_mcp::error::{ErrorContext, ErrorSeverity};
use bevy_debugger_mcp::security::rate_limit::{
    OperationBucket, RateLimitBucket, RateLimitConfig, RateLimiter,
};
use bevy_debugger_mcp::security::rbac::{Permission, RbacConfig, RbacService, Role};
use bevy_debugger_mcp::security::Role as AuthRole;
use bevy_debugger_mcp::security::SecurityContext;

fn create_test_context(role: Role) -> SecurityContext {
    SecurityContext {
        user_id: "test_user".to_string(),
        role,
        session_id: "test_session".to_string(),
        authenticated_at: 0,
        permissions: vec![],
        client_ip: None,
        user_agent: None,
    }
}

#[test]
fn test_viewer_permissions() {
    let rbac = RbacService::new(RbacConfig::default());
    assert!(rbac.check_permission(&create_test_context(Role::Viewer), "observe", "entities"));
    assert!(!rbac.check_permission(&create_test_context(Role::Viewer), "experiment", "systems"));
}

#[test]
fn developer_and_admin_permissions() {
    let rbac = RbacService::new(RbacConfig::default());
    assert!(rbac.check_permission(&create_test_context(Role::Developer), "observe", "entities"));
    // the systems resource does not admit running experiments
    assert!(!rbac.check_permission(&create_test_context(Role::Developer), "experiment", "systems"));
    assert!(rbac.check_permission(&create_test_context(Role::Developer), "stress_test", "performance"));
    assert!(!rbac.check_permission(&create_test_context(Role::Developer), "manage_users", "admin"));
    assert!(rbac.check_permission(&create_test_context(Role::Admin), "manage_users", "admin"));
    assert!(rbac.check_permission(&create_test_context(Role::Admin), "view_audit", "logs"));
    assert_eq!(rbac.get_permissions(Role::Viewer).len(), 4);
    assert_eq!(rbac.get_permissions(Role::Developer).len(), 13);
    assert_eq!(rbac.get_permissions(Role::Admin).len(), 17);
    assert_eq!(rbac.map_operation_to_permission("unknown"), Permission::ObserveEntities);
    assert_eq!(rbac.map_operation_to_permission("hypothesis"), Permission::CreateHypothesis);
}

#[test]
fn role_ranks() {
    assert!(AuthRole::Admin.has_permission(&AuthRole::Developer));
    assert!(AuthRole::Developer.has_permission(&AuthRole::Viewer));
    assert!(!AuthRole::Viewer.has_permission(&AuthRole::Developer));
    assert!(!AuthRole::Developer.has_permission(&AuthRole::Admin));
    assert_eq!(AuthRole::Viewer.level(), 1);
    assert_eq!(AuthRole::Admin.level(), 3);
}

#[test]
fn burst_limits_requests_then_refills() {
    let cfg = RateLimitConfig::default();
    let mut b = RateLimitBucket::new(&cfg, 0);
    for _ in 0..10 {
        assert!(b.try_consume(&cfg, 0));
    }
    assert!(!b.try_consume(&cfg, 0));
    // ten tokens a minute: one every six seconds
    assert!(!b.try_consume(&cfg, 5_999));
    assert!(b.try_consume(&cfg, 6_000));
    assert_eq!(b.requests_this_minute, 11);
    assert_eq!(b.burst_tokens, 0);
}

#[test]
fn minute_window_resets() {
    let mut cfg = RateLimitConfig::default();
    cfg.requests_per_minute = 2;
    cfg.burst_size = 100;
    let mut b = RateLimitBucket::new(&cfg, 1_000);
    assert!(b.try_consume(&cfg, 1_000));
    assert!(b.try_consume(&cfg, 1_000));
    assert!(!b.try_consume(&cfg, 2_000));
    assert!(b.try_consume(&cfg, 61_000));
    assert_eq!(b.requests_this_minute, 1);
    assert_eq!(b.minute_reset_time, 121_000);
}

#[test]
fn operation_bucket_counts_per_minute() {
    let mut b = OperationBucket::new(0);
    for _ in 0..5 {
        assert!(b.try_consume(5, 10));
    }
    assert!(!b.try_consume(5, 10));
    assert!(b.try_consume(5, 60_000));
    assert_eq!(b.requests_this_minute, 1);
    let cfg = RateLimitConfig::default();
    assert_eq!(cfg.operation_limits[0], ("stress_test".to_string(), 5));
}

#[test]
fn error_context_redacts_sensitive_keys_and_formats() {
    let c = ErrorContext::new("connect", "brp_client")
        .add_cause("socket closed")
        .add_cause("peer reset")
        .add_context("API_Key", "abc")
        .add_context("host", "localhost")
        .add_context("host", "remote")
        .add_recovery_suggestion("retry later")
        .set_retryable(true)
        .set_severity(ErrorSeverity::Warning);
    assert_eq!(c.error_id.len(), 36);
    let text = c.format_detailed();
    let expected = format!(
        "Error [{}] in brp_client during connect\nError Chain:\n  1: socket closed\n  2: peer reset\nContext:\n  API_Key: [REDACTED]\n  host: remote\nRecovery Suggestions:\n  - retry later\nRetryable: true\nSeverity: Warning\n",
        c.error_id
    );
    assert_eq!(text, expected);
}

#[test]
fn bare_error_context_format() {
    let c = ErrorContext::new("op", "comp");
    assert!(!c.is_retryable);
    assert_eq!(
        c.format_detailed(),
        format!("Error [{}] in comp during op\nRetryable: false\nSeverity: Error\n", c.error_id)
    );
    let c = c.add_context("password_hint", "x").add_context("TOKEN", "y");
    assert_eq!(c.context_data[0].1, "[REDACTED]");
    assert_eq!(c.context_data[1].1, "[REDACTED]");
}

#[test]
fn test_operation_specific_limits() {
    let config = RateLimitConfig {
        requests_per_minute: 10,
        requests_per_hour: 50,
        burst_size: 5,
        enable_per_operation_limits: true,
        operation_limits: vec![("stress_test".to_string(), 2)],
    };

    let mut limiter = RateLimiter::new(config);
    let user_id = "test_user";

    assert!(limiter.check_limit(user_id, "stress_test", 0));
    assert!(limiter.check_limit(user_id, "stress_test", 0));

    assert!(!limiter.check_limit(user_id, "stress_test", 0));

    assert!(limiter.check_limit(user_id, "observe", 0));
}

#[test]
fn test_user_status() {
    let config = RateLimitConfig::default();
    let mut limiter = RateLimiter::new(config);
    let user_id = "test_user";

    let status = limiter.get_user_status(user_id, 0);
    assert_eq!(status.requests_remaining_minute, 60);

    limiter.check_limit(user_id, "test_op", 0);
    let status = limiter.get_user_status(user_id, 0);
    assert_eq!(status.requests_remaining_minute, 59);
}

#[test]
fn burst_of_three_refuses_the_fourth_request() {
    let config = RateLimitConfig {
        requests_per_minute: 5,
        requests_per_hour: 20,
        burst_size: 3,
        enable_per_operation_limits: false,
        operation_limits: Vec::new(),
    };
    let mut limiter = RateLimiter::new(config);
    for _ in 0..3 {
        assert!(limiter.check_limit("u", "op", 0));
    }
    assert!(!limiter.check_limit("u", "op", 0));
    assert_eq!(limiter.get_violation_count(), 1);
    // a burst token comes back every twenty seconds
    assert!(limiter.check_limit("u", "op", 20_000));
    let status = limiter.get_user_status("u", 20_000);
    assert_eq!(status.requests_remaining_minute, 1);
    assert_eq!(status.minute_reset_in_seconds, 40);
}

#[test]
fn reset_and_cleanup_forget_buckets() {
    let mut limiter = RateLimiter::new(RateLimitConfig::default());
    assert!(limiter.check_limit("a", "stress_test", 0));
    assert!(limiter.check_limit("b", "observe", 0));
    limiter.reset_user_limits("a");
    assert_eq!(limiter.get_user_status("a", 0).requests_remaining_minute, 60);
    assert_eq!(limiter.get_user_status("b", 0).requests_remaining_minute, 59);
    // after the hour both the user bucket and the operation bucket of b go
    assert_eq!(limiter.cleanup_expired_buckets(3_600_001), 2);
    assert_eq!(limiter.get_user_status("b", 0).requests_remaining_minute, 60);
    assert_eq!(limiter.cleanup_expired_buckets(3_600_002), 0);
}
