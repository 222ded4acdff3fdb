use bevy_debugger_mcp::mcp_server::{tool_error_context, McpTool};
use bevy_debugger_mcp::security::audit::{
    AuditConfig, AuditEvent, AuditEventType, AuditLogger, AuditSearchCriteria,
};
use bevy_debugger_mcp::security::rbac::Role;
use bevy_debugger_mcp::security::SecurityContext;

fn event(user: Option<&str>, kind: AuditEventType, at: u64, success: bool) -> AuditEvent {
    AuditEvent {
        event_id: format!("e{at}"),
        timestamp: at,
        event_type: kind,
        user_id: user.map(|u| u.to_string()),
        session_id: None,
        client_ip: None,
        user_agent: None,
        operation: "observe".to_string(),
        resource: Some("entities".to_string()),
        success,
        details: Vec::new(),
        security_context: None,
    }
}

fn any() -> AuditSearchCriteria {
    AuditSearchCriteria { user_id: None, event_type: None, start_time: None, end_time: None, success: None }
}

#[test]
fn audit_log_keeps_the_most_recent_events() {
    let config = AuditConfig { max_memory_entries: 2, ..AuditConfig::default() };
    let mut log = AuditLogger::new(config);
    assert!(log.record_event(event(Some("a"), AuditEventType::Operation, 1, true)));
    log.record_event(event(Some("b"), AuditEventType::Operation, 2, true));
    log.record_event(event(Some("c"), AuditEventType::Operation, 3, true));
    let found = log.search_events(&any());
    assert_eq!(found.len(), 2);
    assert_eq!(found[0].timestamp, 2);
    assert_eq!(found[1].timestamp, 3);
}

fn create_test_context() -> SecurityContext {
    SecurityContext {
        user_id: "test_user".to_string(),
        role: Role::Developer,
        session_id: "test_session".to_string(),
        authenticated_at: 0,
        permissions: vec![],
        client_ip: Some("127.0.0.1".to_string()),
        user_agent: Some("test-agent".to_string()),
    }
}

#[test]
fn test_audit_logging() {
    let config = AuditConfig { enable_file_logging: false, ..AuditConfig::default() };

    let mut logger = AuditLogger::new(config);
    let context = create_test_context();

    logger.log_authentication(&context);
    logger.log_operation(&context, "observe", "entities");
    logger.log_authorization_denied(&context, "admin_operation", "system");

    let events = logger.get_recent_events(10);
    assert_eq!(events.len(), 3);

    assert_eq!(logger.get_authorization_denial_count(), 1);
}

#[test]
fn test_event_search() {
    let config = AuditConfig { enable_file_logging: false, ..AuditConfig::default() };

    let mut logger = AuditLogger::new(config);
    let context = create_test_context();

    logger.log_authentication(&context);
    logger.log_operation(&context, "observe", "entities");

    let criteria = AuditSearchCriteria {
        user_id: Some("test_user".to_string()),
        event_type: Some(AuditEventType::Authentication),
        start_time: None,
        end_time: None,
        success: Some(true),
    };

    let results = logger.search_events(&criteria);
    assert_eq!(results.len(), 1);
    assert!(matches!(results[0].event_type, AuditEventType::Authentication));
}

#[test]
fn search_by_each_criterion() {
    let mut log = AuditLogger::new(AuditConfig::default());
    log.record_event(event(Some("test_user"), AuditEventType::Operation, 10, true));
    log.record_event(event(Some("other"), AuditEventType::Operation, 20, true));
    log.record_event(event(Some("test_user"), AuditEventType::Authentication, 30, false));
    log.record_event(event(None, AuditEventType::System, 40, true));

    let by_user = AuditSearchCriteria { user_id: Some("test_user".to_string()), ..any() };
    assert_eq!(log.search_events(&by_user).len(), 2);

    let ops = AuditSearchCriteria { event_type: Some(AuditEventType::Operation), ..any() };
    assert_eq!(log.search_events(&ops).len(), 2);

    let window = AuditSearchCriteria { start_time: Some(20), end_time: Some(30), ..any() };
    let found = log.search_events(&window);
    assert_eq!(found.iter().map(|e| e.timestamp).collect::<Vec<u64>>(), vec![20, 30]);

    let failures = AuditSearchCriteria { success: Some(false), ..any() };
    assert_eq!(log.search_events(&failures)[0].timestamp, 30);

    let recent = log.get_recent_events(2);
    assert_eq!(recent.iter().map(|e| e.timestamp).collect::<Vec<u64>>(), vec![40, 30]);
}

#[test]
fn logged_events_carry_context_and_details() {
    let mut logger = AuditLogger::new(AuditConfig::default());
    let context = create_test_context();
    logger.log_authorization_denied(&context, "admin_operation", "system");
    let e = logger.get_recent_events(1)[0];
    assert_eq!(e.event_id.len(), 36);
    assert!(!e.success);
    assert_eq!(e.resource.as_deref(), Some("system"));
    assert_eq!(e.details[1], ("attempted_operation".to_string(), "admin_operation".to_string()));
    assert_eq!(e.security_context.as_ref().unwrap().role, "Developer");
    let quiet = AuditConfig { log_successful_operations: false, ..AuditConfig::default() };
    let mut logger = AuditLogger::new(quiet);
    assert!(!logger.log_operation(&context, "observe", "entities"));
    assert!(logger.get_recent_events(10).is_empty());
}

#[test]
fn tools_are_routed_by_name() {
    assert_eq!(McpTool::from_name("observe"), Ok(McpTool::Observe));
    assert_eq!(McpTool::from_name("bug_report"), Ok(McpTool::BugReport));
    assert_eq!(McpTool::Pipeline.name(), "pipeline");
    assert_eq!(
        McpTool::from_name("teleport"),
        Err("Unknown tool: teleport".to_string())
    );
}

#[test]
fn failed_tool_calls_are_recorded_with_context() {
    let c = tool_error_context("observe", "not connected", "{\"q\":1}");
    assert_eq!(c.component, "mcp_server");
    assert_eq!(c.error_chain, vec!["not connected".to_string()]);
    assert!(c.is_retryable);
    assert_eq!(c.context_data[0], ("tool".to_string(), "observe".to_string()));
    assert_eq!(c.context_data[1], ("arguments".to_string(), "{\"q\":1}".to_string()));
}
