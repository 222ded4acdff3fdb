use bevy_debugger_mcp::brp_client::{
    ClientConfig, ClientError, ConnectStep, ConnectionManager, ConnectionState, InboundEvent,
};

#[test]
fn connect_gives_up_after_max_attempts_then_success_resets() {
    let mut m = ConnectionManager::new(ClientConfig::default());
    let report = m.connect_with_retry(&[false, false, false, false, false, true]);
    assert_eq!(report.result, Err(ClientError::Connection));
    assert_eq!(report.attempts, 5);
    assert_eq!(report.waits_ms, vec![2000, 4000, 8000, 16000]);
    assert_eq!(m.retry_count(), 5);
    assert_eq!(m.state(), ConnectionState::Disconnected);
    assert!(!m.can_attempt());
    m.begin_connect();
    m.connect_succeeded();
    assert_eq!(m.retry_count(), 0);
    assert!(m.is_connected());
}

#[test]
fn connect_succeeds_on_a_later_attempt() {
    let mut m = ConnectionManager::new(ClientConfig::default());
    let report = m.connect_with_retry(&[false, true, false, false, false]);
    assert_eq!(report.result, Ok(()));
    assert_eq!(report.attempts, 2);
    assert_eq!(m.retry_count(), 0);
    assert_eq!(m.state(), ConnectionState::Connected);
}

#[test]
fn reconnect_backoff_is_capped() {
    let c = ClientConfig::default();
    assert_eq!(c.reconnect_delay_ms(0), 1000);
    assert_eq!(c.reconnect_delay_ms(1), 2000);
    assert_eq!(c.reconnect_delay_ms(5), 32000);
    assert_eq!(c.reconnect_delay_ms(9), 32000);
    let big = ClientConfig { base_delay_ms: u64::MAX / 2 + 1, ..c };
    assert_eq!(big.reconnect_delay_ms(3), u64::MAX);
}

#[test]
fn batch_tick_drains_at_most_ten() {
    let mut m = ConnectionManager::new(ClientConfig::default());
    m.begin_connect();
    m.connect_succeeded();
    for id in 0..25u64 {
        assert!(m.submit_batched(id).is_ok());
    }
    let tick = m.batch_tick(true);
    assert_eq!(tick.processed, (0..10).collect::<Vec<u64>>());
    assert!(tick.rate_limited.is_empty());
    assert_eq!(m.queue_len(), 15);
    let tick = m.batch_tick(false);
    assert_eq!(tick.rate_limited, (10..20).collect::<Vec<u64>>());
    assert!(tick.processed.is_empty());
    assert_eq!(m.queue_len(), 5);
    let tick = m.batch_tick(true);
    assert_eq!(tick.processed.len(), 5);
    assert_eq!(m.queue_len(), 0);
    assert!(m.batch_tick(true).processed.is_empty());
}

#[test]
fn two_batched_requests_while_disconnected_fail() {
    let shared = std::sync::Arc::new(std::sync::Mutex::new(ConnectionManager::new(
        ClientConfig::default(),
    )));
    let first = shared.clone();
    let second = shared.clone();
    assert_eq!(first.lock().unwrap().submit_batched(1), Err(ClientError::Connection));
    assert_eq!(second.lock().unwrap().submit_batched(2), Err(ClientError::Connection));
    assert_eq!(shared.lock().unwrap().queue_len(), 0);
}

#[test]
fn disconnect_is_idempotent_and_orders_teardown() {
    let mut m = ConnectionManager::new(ClientConfig::default());
    m.begin_connect();
    m.connect_succeeded();
    m.batch_task_started();
    m.submit_batched(7).unwrap();
    let t = m.disconnect();
    assert!(t.abort_batch_task);
    assert!(t.close_socket);
    let t = m.disconnect();
    assert!(!t.abort_batch_task);
    assert!(!t.close_socket);
    assert_eq!(m.state(), ConnectionState::Disconnected);
    assert_eq!(m.fail_pending(), vec![7]);
    assert_eq!(m.queue_len(), 0);
}

#[test]
fn reconnect_closes_the_live_connection_first() {
    let mut m = ConnectionManager::new(ClientConfig::default());
    m.begin_connect();
    m.connect_succeeded();
    m.batch_task_started();
    m.submit_batched(9).unwrap();
    let t = m.begin_connect();
    assert!(t.teardown.close_socket);
    assert!(t.teardown.abort_batch_task);
    assert_eq!(t.dropped_requests, vec![9]);
    assert_eq!(m.queue_len(), 0);
    assert_eq!(m.state(), ConnectionState::Connecting);
    assert_eq!(m.connect_failed(), ConnectStep::RetryAfter { delay_ms: 2000 });
}

#[test]
fn stats_report_the_client_state() {
    let mut m = ConnectionManager::new(ClientConfig::default());
    m.begin_connect();
    m.connect_succeeded();
    m.submit_batched(3).unwrap();
    let s = m.get_connection_stats();
    assert!(s.connected);
    assert_eq!(s.retry_count, 0);
    assert_eq!(s.queue_size, 1);
}

#[test]
fn replies_timeouts_and_lost_connections_are_told_apart() {
    let mut m = ConnectionManager::new(ClientConfig::default());
    assert_eq!(m.begin_request(), Err(ClientError::Connection));
    m.begin_connect();
    m.connect_succeeded();
    assert!(m.begin_request().is_ok());
    assert_eq!(m.on_reply(InboundEvent::Text("{}".to_string())), Ok("{}".to_string()));
    assert_eq!(m.on_reply(InboundEvent::TimedOut), Err(ClientError::Timeout));
    assert!(m.is_connected());
    assert_eq!(m.on_reply(InboundEvent::Closed), Err(ClientError::Connection));
    assert_eq!(m.state(), ConnectionState::Disconnected);
    assert_eq!(m.begin_request(), Err(ClientError::Connection));
}

#[test]
fn test_brp_client_creation() {
    let client = ConnectionManager::new(ClientConfig::default());
    assert!(!client.is_connected());
    assert_eq!(client.retry_count(), 0);
}

#[test]
fn test_connection_stats() {
    let client = ConnectionManager::new(ClientConfig::default());

    let stats = client.get_connection_stats();
    assert!(!stats.connected);
    assert_eq!(stats.retry_count, 0);
    assert_eq!(stats.queue_size, 0);
}

#[test]
fn reconnect_report_carries_teardown_and_dropped_requests() {
    let mut m = ConnectionManager::new(ClientConfig::default());
    m.begin_connect();
    m.connect_succeeded();
    m.batch_task_started();
    m.submit_batched(1).unwrap();
    m.submit_batched(2).unwrap();
    let report = m.connect_with_retry(&[false, true, false, false, false]);
    assert!(report.teardown.abort_batch_task);
    assert!(report.teardown.close_socket);
    assert_eq!(report.dropped_requests, vec![1, 2]);
    assert_eq!(report.waits_ms, vec![2000]);
    assert_eq!(m.queue_len(), 0);
    assert!(m.is_connected());
}
