use bevy_debugger_mcp::config::Config;
use bevy_debugger_mcp::diagnostics::{
    format_error_summary, format_health_checks, DiagnosticCollector, ErrorSummary,
};
use bevy_debugger_mcp::error::ErrorContext;

#[test]
fn collector_keeps_only_the_most_recent_errors() {
    let mut c = DiagnosticCollector::new(2);
    c.record_error(ErrorContext::new("a", "x"));
    c.record_error(ErrorContext::new("b", "x"));
    c.record_error(ErrorContext::new("c", "x"));
    let ops: Vec<&str> = c.recent_errors().iter().map(|e| e.operation.as_str()).collect();
    assert_eq!(ops, vec!["b", "c"]);
    let mut none = DiagnosticCollector::new(0);
    none.record_error(ErrorContext::new("a", "x"));
    assert!(none.recent_errors().is_empty());
}

#[test]
fn safe_environment_variables() {
    assert!(DiagnosticCollector::is_safe_env_var("RUST_LOG"));
    assert!(DiagnosticCollector::is_safe_env_var("cargo_home"));
    assert!(DiagnosticCollector::is_safe_env_var("PATH"));
    assert!(!DiagnosticCollector::is_safe_env_var("API_TOKEN"));
    assert!(!DiagnosticCollector::is_safe_env_var("db_password"));
    assert!(DiagnosticCollector::is_safe_env_var("HOME"));
    assert!(!DiagnosticCollector::is_safe_env_var("home"));
    assert!(!DiagnosticCollector::is_safe_env_var("EDITOR"));
}

#[test]
fn summary_and_health_formatting() {
    let summary = ErrorSummary {
        total_errors: 3,
        error_by_severity: vec![("Error".to_string(), 2), ("Critical".to_string(), 1)],
        error_by_component: vec![("brp_client".to_string(), 3)],
        recent_errors: Vec::new(),
        dead_letter_stats: None,
    };
    assert_eq!(
        format_error_summary(&summary),
        "By Severity:\n  Error: 2\n  Critical: 1\nBy Component:\n  brp_client: 3\n"
    );
    let empty = ErrorSummary {
        total_errors: 0,
        error_by_severity: Vec::new(),
        error_by_component: Vec::new(),
        recent_errors: Vec::new(),
        dead_letter_stats: None,
    };
    assert_eq!(format_error_summary(&empty), "");
    let checks = vec![("brp".to_string(), true), ("disk".to_string(), false)];
    assert_eq!(format_health_checks(&checks), "  brp: ✓\n  disk: ✗\n");
}

#[test]
fn config_defaults_url_and_validation() {
    let mut c = Config::default();
    assert_eq!(c.brp_url(), "ws://localhost:15702");
    assert!(c.validate().is_ok());
    c.resilience.connection_pool.min_connections = 20;
    assert_eq!(
        c.validate().unwrap_err(),
        "Max connections must be >= min connections"
    );
    c.resilience.circuit_breaker.failure_threshold = 0;
    assert_eq!(
        c.validate().unwrap_err(),
        "Circuit breaker failure threshold must be > 0"
    );
}
