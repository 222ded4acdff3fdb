use bevy_debugger_mcp::security::config::SecurityConfig;

#[test]
fn test_default_config() {
    let config = SecurityConfig::default();
    assert!(config.validate().is_ok());

    assert_eq!(config.jwt.expiration_hours, 24);
    assert_eq!(config.jwt.audience, "bevy-debugger-mcp");
    assert_eq!(config.rate_limit.requests_per_minute, 60);
}

#[test]
fn test_config_validation() {
    let mut config = SecurityConfig::default();

    assert!(config.validate().is_ok());

    config.jwt.expiration_hours = 0;
    assert!(config.validate().is_err());

    config = SecurityConfig::default();
    config.rate_limit.requests_per_minute = 0;
    assert!(config.validate().is_err());

    config = SecurityConfig::default();
    config.rate_limit.requests_per_hour = 30;
    config.rate_limit.requests_per_minute = 60;
    assert!(config.validate().is_err());
}

#[test]
fn test_config_summary() {
    let config = SecurityConfig::default();
    let summary = config.summary();

    assert_eq!(summary.jwt_expiration_hours, 24);
    assert_eq!(summary.rate_limit_rpm, 60);
    assert_eq!(summary.cors_enabled, true);
}

#[test]
fn each_config_rule_reports_its_own_message() {
    let mut c = SecurityConfig::default();
    c.jwt.audience = String::new();
    assert_eq!(c.validate().unwrap_err(), "JWT audience cannot be empty");

    let mut c = SecurityConfig::default();
    c.jwt.issuer = String::new();
    assert_eq!(c.validate().unwrap_err(), "JWT issuer cannot be empty");

    let mut c = SecurityConfig::default();
    c.rate_limit.requests_per_hour = 0;
    assert_eq!(
        c.validate().unwrap_err(),
        "Rate limit requests per hour must be greater than 0"
    );

    let mut c = SecurityConfig::default();
    c.audit.max_memory_entries = 0;
    assert_eq!(
        c.validate().unwrap_err(),
        "Audit max memory entries must be greater than 0"
    );

    let mut c = SecurityConfig::default();
    c.middleware.allowed_origins.clear();
    assert_eq!(
        c.validate().unwrap_err(),
        "CORS allowed origins cannot be empty when CORS is enabled"
    );
    c.middleware.enable_cors = false;
    assert!(c.validate().is_ok());

    let mut c = SecurityConfig::default();
    c.jwt.expiration_hours = 0;
    c.rate_limit.requests_per_minute = 0;
    assert_eq!(
        c.validate().unwrap_err(),
        "JWT expiration hours must be greater than 0"
    );
}

#[test]
fn equal_hour_and_minute_limits_are_accepted() {
    let mut c = SecurityConfig::default();
    c.rate_limit.requests_per_hour = 60;
    c.rate_limit.requests_per_minute = 60;
    assert!(c.validate().is_ok());
    let s = c.summary();
    assert_eq!(s.rate_limit_rph, 60);
    assert_eq!(s.rate_limit_burst, 10);
    assert_eq!(s.audit_memory_entries, 10000);
    assert!(!s.ip_whitelist_enabled);
    assert_eq!(s.jwt_issuer, "bevy-debugger-mcp");
}
