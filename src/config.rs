use vstd::prelude::*;

use crate::text::{decimal, push_decimal};

verus! {

/// When the circuit breaker opens and how it recovers; times in seconds.
#[derive(Debug, Clone, Copy, PartialEq, Eq, Structural)]
pub struct CircuitBreakerConfig {
    pub failure_threshold: u32,
    pub reset_timeout_secs: u64,
    pub half_open_max_requests: u32,
}

impl Default for CircuitBreakerConfig {
    fn default() -> (r: Self)
        ensures
            r == (CircuitBreakerConfig {
                failure_threshold: 5,
                reset_timeout_secs: 60,
                half_open_max_requests: 3,
            }),
    {
        CircuitBreakerConfig { failure_threshold: 5, reset_timeout_secs: 60, half_open_max_requests: 3 }
    }
}

/// Bounds of the connection pool; times in seconds.
#[derive(Debug, Clone, Copy, PartialEq, Eq, Structural)]
pub struct ConnectionPoolConfig {
    pub min_connections: u32,
    pub max_connections: u32,
    pub connection_timeout_secs: u64,
    pub idle_timeout_secs: u64,
    pub max_connection_lifetime_secs: u64,
}

impl Default for ConnectionPoolConfig {
    fn default() -> (r: Self)
        ensures
            r == (ConnectionPoolConfig {
                min_connections: 1,
                max_connections: 10,
                connection_timeout_secs: 5,
                idle_timeout_secs: 300,
                max_connection_lifetime_secs: 3600,
            }),
    {
        ConnectionPoolConfig {
            min_connections: 1,
            max_connections: 10,
            connection_timeout_secs: 5,
            idle_timeout_secs: 300,
            max_connection_lifetime_secs: 3600,
        }
    }
}

/// Retry policy of the transport; the growth factor is in percent.
#[derive(Debug, Clone, Copy, PartialEq, Eq, Structural)]
pub struct RetryConfig {
    pub max_attempts: u32,
    pub initial_delay_ms: u64,
    pub max_delay_ms: u64,
    pub multiplier_percent: u32,
    pub jitter: bool,
}

impl Default for RetryConfig {
    fn default() -> (r: Self)
        ensures
            r == (RetryConfig {
                max_attempts: 5,
                initial_delay_ms: 1000,
                max_delay_ms: 30_000,
                multiplier_percent: 200,
                jitter: true,
            }),
    {
        RetryConfig {
            max_attempts: 5,
            initial_delay_ms: 1000,
            max_delay_ms: 30_000,
            multiplier_percent: 200,
            jitter: true,
        }
    }
}

/// Liveness probing of the connection; times in seconds.
#[derive(Debug, Clone, Copy, PartialEq, Eq, Structural)]
pub struct HeartbeatConfig {
    pub interval_secs: u64,
    pub timeout_secs: u64,
    pub max_missed: u32,
}

impl Default for HeartbeatConfig {
    fn default() -> (r: Self)
        ensures
            r == (HeartbeatConfig { interval_secs: 30, timeout_secs: 5, max_missed: 3 }),
    {
        HeartbeatConfig { interval_secs: 30, timeout_secs: 5, max_missed: 3 }
    }
}

/// Resilience settings of the transport.
#[derive(Debug, Clone, Copy, PartialEq, Eq, Structural)]
pub struct ResilienceConfig {
    pub circuit_breaker: CircuitBreakerConfig,
    pub connection_pool: ConnectionPoolConfig,
    pub retry: RetryConfig,
    pub heartbeat: HeartbeatConfig,
    pub request_timeout_secs: u64,
    pub enable_adaptive_sampling: bool,
}

impl Default for ResilienceConfig {
    fn default() -> (r: Self)
        ensures
            r.circuit_breaker.failure_threshold == 5,
            r.connection_pool.min_connections == 1,
            r.connection_pool.max_connections == 10,
            r.retry.max_attempts == 5,
            r.heartbeat.max_missed == 3,
            r.request_timeout_secs == 10,
            r.enable_adaptive_sampling,
    {
        ResilienceConfig {
            circuit_breaker: CircuitBreakerConfig::default(),
            connection_pool: ConnectionPoolConfig::default(),
            retry: RetryConfig::default(),
            heartbeat: HeartbeatConfig::default(),
            request_timeout_secs: 10,
            enable_adaptive_sampling: true,
        }
    }
}

/// Where the remote process and the tool server listen, and how to stay
/// connected.
#[derive(Debug, Clone)]
pub struct Config {
    pub bevy_brp_host: String,
    pub bevy_brp_port: u16,
    pub mcp_port: u16,
    pub resilience: ResilienceConfig,
}

impl Default for Config {
    fn default() -> (r: Self)
        ensures
            r.bevy_brp_host@ == "localhost"@,
            r.bevy_brp_port == 15702,
            r.mcp_port == 3001,
            r.resilience.circuit_breaker.failure_threshold == 5,
            r.resilience.connection_pool.min_connections == 1,
            r.resilience.connection_pool.max_connections == 10,
            r.resilience.retry.max_attempts == 5,
            r.resilience.heartbeat.max_missed == 3,
    {
        Config {
            bevy_brp_host: String::from_str("localhost"),
            bevy_brp_port: 15702,
            mcp_port: 3001,
            resilience: ResilienceConfig::default(),
        }
    }
}

/// The first rule the settings break, as the message that reports it.
pub open spec fn resilience_problem(r: ResilienceConfig) -> Option<Seq<char>> {
    if r.circuit_breaker.failure_threshold == 0 {
        Some("Circuit breaker failure threshold must be > 0"@)
    } else if r.connection_pool.max_connections == 0 {
        Some("Max connections must be > 0"@)
    } else if r.connection_pool.max_connections < r.connection_pool.min_connections {
        Some("Max connections must be >= min connections"@)
    } else if r.retry.max_attempts == 0 {
        Some("Retry max attempts must be > 0"@)
    } else if r.heartbeat.max_missed == 0 {
        Some("Heartbeat max missed must be > 0"@)
    } else {
        None
    }
}

impl Config {
    /// Address of the remote process: `ws://<host>:<port>`.
    pub fn brp_url(&self) -> (r: String)
        ensures
            r@ == "ws://"@ + self.bevy_brp_host@ + ":"@ + decimal(self.bevy_brp_port as nat),
    {
        let mut s = String::from_str("ws://");
        s.append(self.bevy_brp_host.as_str());
        s.append(":");
        push_decimal(&mut s, self.bevy_brp_port as u64);
        s
    }

    /// Checks the resilience settings, in order, and reports the first rule
    /// broken.
    pub fn validate(&self) -> (r: Result<(), String>)
        ensures
            r is Ok <==> resilience_problem(self.resilience) is None,
            r matches Err(m) ==> Some(m@) == resilience_problem(self.resilience),
    {
        let res = &self.resilience;
        if res.circuit_breaker.failure_threshold == 0 {
            return Err(String::from_str("Circuit breaker failure threshold must be > 0"));
        }
        if res.connection_pool.max_connections == 0 {
            return Err(String::from_str("Max connections must be > 0"));
        }
        if res.connection_pool.max_connections < res.connection_pool.min_connections {
            return Err(String::from_str("Max connections must be >= min connections"));
        }
        if res.retry.max_attempts == 0 {
            return Err(String::from_str("Retry max attempts must be > 0"));
        }
        if res.heartbeat.max_missed == 0 {
            return Err(String::from_str("Heartbeat max missed must be > 0"));
        }
        Ok(())
    }
}

} // verus!
