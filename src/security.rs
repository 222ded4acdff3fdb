use vstd::prelude::*;

pub mod audit;
pub mod config;
pub mod rate_limit;
pub mod rbac;

verus! {

/// Roles of the bridge's users, from least to most privileged.
#[derive(Debug, Clone, Copy, PartialEq, Eq, Structural)]
pub enum Role {
    /// Observes and queries only.
    Viewer,
    /// Observes, queries and changes state.
    Developer,
    /// Everything, user management and settings included.
    Admin,
}

impl Role {
    /// Rank of a role: 1 for viewers, 2 for developers, 3 for admins.
    pub open spec fn spec_level(&self) -> u8 {
        match self {
            Role::Viewer => 1,
            Role::Developer => 2,
            Role::Admin => 3,
        }
    }

    /// A role may do what `required_role` may do when it ranks at least as
    /// high.
    pub fn has_permission(&self, required_role: &Role) -> (r: bool)
        ensures
            r == (self.spec_level() >= required_role.spec_level()),
    {
        match (self, required_role) {
            (Role::Admin, _) => true,
            (Role::Developer, Role::Viewer) | (Role::Developer, Role::Developer) => true,
            (Role::Viewer, Role::Viewer) => true,
            _ => false,
        }
    }

    #[verifier::when_used_as_spec(spec_level)]
    pub fn level(&self) -> (r: u8)
        ensures
            r == self.spec_level(),
    {
        match self {
            Role::Viewer => 1,
            Role::Developer => 2,
            Role::Admin => 3,
        }
    }
}

/// Claims carried by an access token; times are seconds since the epoch.
#[derive(Debug, Clone)]
pub struct Claims {
    pub sub: String,
    pub role: Role,
    pub exp: u64,
    pub iat: u64,
    pub jti: String,
    pub session_id: String,
}

/// Settings of authentication and sessions.
#[derive(Debug, Clone)]
pub struct SecurityConfig {
    pub jwt_secret: String,
    pub jwt_expiry_hours: u64,
    pub rate_limit_requests_per_minute: u32,
    pub rate_limit_burst: u32,
    pub password_min_length: usize,
    pub session_timeout_hours: u64,
    pub max_failed_logins: u32,
    pub lockout_duration_minutes: u64,
    pub audit_log_retention_days: u64,
}

/// Counters for monitoring the security layer.
#[derive(Debug, Clone, Copy, PartialEq, Eq, Structural)]
pub struct SecurityMetrics {
    pub active_sessions: u64,
    pub rate_limit_violations: u64,
    pub failed_authentications: u64,
    pub authorization_denials: u64,
}

/// Who is calling, as established by authentication; `authenticated_at` is
/// seconds since the epoch.
#[derive(Debug, Clone)]
pub struct SecurityContext {
    pub user_id: String,
    pub role: rbac::Role,
    pub session_id: String,
    pub authenticated_at: u64,
    pub permissions: Vec<rbac::Permission>,
    pub client_ip: Option<String>,
    pub user_agent: Option<String>,
}

} // verus!
