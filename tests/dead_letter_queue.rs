use bevy_debugger_mcp::dead_letter_queue::{DeadLetterConfig, DeadLetterQueue, FailedOperation};
use bevy_debugger_mcp::error::ErrorContext;

fn failed(op: &str, component: &str, retries: u32, at: u64) -> FailedOperation {
    let mut f = FailedOperation::new(
        op,
        component,
        retries,
        ErrorContext::new(op, component),
        "{}".to_string(),
        "gave up",
    );
    f.failed_timestamp = at;
    f
}

#[test]
fn queue_drops_the_oldest_when_full() {
    let config = DeadLetterConfig { max_size: 2, ..DeadLetterConfig::default() };
    let mut q = DeadLetterQueue::new(config);
    q.add_failed_operation(failed("a", "x", 1, 10));
    q.add_failed_operation(failed("b", "x", 1, 20));
    q.add_failed_operation(failed("c", "y", 1, 30));
    let ops: Vec<&str> = q.failed_operations().iter().map(|o| o.operation.as_str()).collect();
    assert_eq!(ops, vec!["b", "c"]);
    let mut none = DeadLetterQueue::new(DeadLetterConfig { max_size: 0, ..DeadLetterConfig::default() });
    none.add_failed_operation(failed("a", "x", 1, 10));
    assert_eq!(none.len(), 0);
}

#[test]
fn removal_by_id_and_cleanup_by_age() {
    let mut q = DeadLetterQueue::new(DeadLetterConfig::default());
    let first = failed("a", "x", 0, 100);
    let id = first.id.clone();
    assert_eq!(id.len(), 36);
    q.add_failed_operation(first);
    q.add_failed_operation(failed("b", "x", 0, 90_000));
    assert!(q.remove_failed_operation("missing").is_none());
    assert_eq!(q.remove_failed_operation(&id).unwrap().operation, "a");
    assert_eq!(q.len(), 1);
    q.add_failed_operation(failed("c", "x", 0, 100));
    // a day of retention: at 90_000 + 86_400 the operation at 90_000 expires too
    assert_eq!(q.cleanup_expired(90_000), 1);
    assert_eq!(q.len(), 1);
    assert_eq!(q.cleanup_expired(90_000 + 86_400), 1);
    assert_eq!(q.len(), 0);
}

#[test]
fn statistics_count_by_component_and_operation() {
    let mut q = DeadLetterQueue::new(DeadLetterConfig::default());
    let empty = q.get_statistics();
    assert_eq!(empty.total_count, 0);
    assert_eq!(empty.oldest_timestamp, None);
    q.add_failed_operation(failed("query", "brp", 2, 50));
    q.add_failed_operation(failed("spawn", "brp", 3, 10));
    q.add_failed_operation(failed("query", "mcp", u32::MAX, 70));
    let s = q.get_statistics();
    assert_eq!(s.total_count, 3);
    assert_eq!(s.by_component, vec![("brp".to_string(), 2), ("mcp".to_string(), 1)]);
    assert_eq!(s.by_operation, vec![("query".to_string(), 2), ("spawn".to_string(), 1)]);
    assert_eq!(s.oldest_timestamp, Some(10));
    assert_eq!(s.newest_timestamp, Some(70));
    assert_eq!(s.total_retry_attempts, u32::MAX);
}

#[test]
fn filters_by_component_and_type() {
    let mut q = DeadLetterQueue::new(DeadLetterConfig::default());
    q.add_failed_operation(failed("query", "brp", 0, 1));
    q.add_failed_operation(failed("spawn", "brp", 0, 2));
    q.add_failed_operation(failed("query", "mcp", 0, 3));
    let brp: Vec<u64> = q.get_failed_operations_by_component("brp").iter().map(|o| o.failed_timestamp).collect();
    assert_eq!(brp, vec![1, 2]);
    let queries: Vec<u64> = q.get_failed_operations_by_type("query").iter().map(|o| o.failed_timestamp).collect();
    assert_eq!(queries, vec![1, 3]);
    assert!(q.get_failed_operations_by_type("none").is_empty());
}
