use vstd::prelude::*;

use crate::security::audit::AuditConfig;
use crate::security::rate_limit::RateLimitConfig;
use crate::security::rbac::RbacConfig;

verus! {

/// Settings of the whole security layer.
#[derive(Debug, Clone)]
pub struct SecurityConfig {
    pub jwt: JwtConfig,
    pub rbac: RbacConfig,
    pub rate_limit: RateLimitConfig,
    pub audit: AuditConfig,
    pub middleware: MiddlewareConfig,
}

/// Token settings.
#[derive(Debug, Clone)]
pub struct JwtConfig {
    /// Empty until a key is supplied or generated.
    pub secret_key: String,
    pub algorithm: String,
    pub expiration_hours: u32,
    pub audience: String,
    pub issuer: String,
    pub enable_refresh_tokens: bool,
    pub refresh_token_expiration_days: u32,
}

impl Default for JwtConfig {
    fn default() -> (r: Self)
        ensures
            r.secret_key@.len() == 0,
            r.algorithm@ == "HS256"@,
            r.expiration_hours == 24,
            r.audience@ == "bevy-debugger-mcp"@,
            r.issuer@ == "bevy-debugger-mcp"@,
            r.enable_refresh_tokens,
            r.refresh_token_expiration_days == 30,
    {
        JwtConfig {
            secret_key: String::new(),
            algorithm: String::from_str("HS256"),
            expiration_hours: 24,
            audience: String::from_str("bevy-debugger-mcp"),
            issuer: String::from_str("bevy-debugger-mcp"),
            enable_refresh_tokens: true,
            refresh_token_expiration_days: 30,
        }
    }
}

/// Settings of the request middleware.
#[derive(Debug, Clone)]
pub struct MiddlewareConfig {
    pub enable_cors: bool,
    pub allowed_origins: Vec<String>,
    pub enable_request_logging: bool,
    pub enable_response_headers: bool,
    pub security_headers: SecurityHeaders,
    pub enable_ip_whitelist: bool,
    pub ip_whitelist: Vec<String>,
}

impl Default for MiddlewareConfig {
    fn default() -> (r: Self)
        ensures
            r.enable_cors,
            r.allowed_origins@.len() == 1,
            r.allowed_origins@[0]@ == "http://localhost:3000"@,
            r.enable_request_logging,
            r.enable_response_headers,
            !r.enable_ip_whitelist,
            r.ip_whitelist@.len() == 2,
            r.ip_whitelist@[0]@ == "127.0.0.1"@,
            r.ip_whitelist@[1]@ == "::1"@,
    {
        let mut allowed_origins: Vec<String> = Vec::new();
        allowed_origins.push(String::from_str("http://localhost:3000"));
        let mut ip_whitelist: Vec<String> = Vec::new();
        ip_whitelist.push(String::from_str("127.0.0.1"));
        ip_whitelist.push(String::from_str("::1"));
        MiddlewareConfig {
            enable_cors: true,
            allowed_origins,
            enable_request_logging: true,
            enable_response_headers: true,
            security_headers: SecurityHeaders::default(),
            enable_ip_whitelist: false,
            ip_whitelist,
        }
    }
}

/// Response headers added for browser safety.
#[derive(Debug, Clone)]
pub struct SecurityHeaders {
    pub x_content_type_options: String,
    pub x_frame_options: String,
    pub x_xss_protection: String,
    pub strict_transport_security: String,
    pub content_security_policy: String,
    pub referrer_policy: String,
}

impl Default for SecurityHeaders {
    fn default() -> (r: Self)
        ensures
            r.x_content_type_options@ == "nosniff"@,
            r.x_frame_options@ == "DENY"@,
            r.x_xss_protection@ == "1; mode=block"@,
            r.strict_transport_security@ == "max-age=31536000; includeSubDomains"@,
            r.content_security_policy@ == "default-src 'self'"@,
            r.referrer_policy@ == "strict-origin-when-cross-origin"@,
    {
        SecurityHeaders {
            x_content_type_options: String::from_str("nosniff"),
            x_frame_options: String::from_str("DENY"),
            x_xss_protection: String::from_str("1; mode=block"),
            strict_transport_security: String::from_str("max-age=31536000; includeSubDomains"),
            content_security_policy: String::from_str("default-src 'self'"),
            referrer_policy: String::from_str("strict-origin-when-cross-origin"),
        }
    }
}

impl Default for SecurityConfig {
    fn default() -> (r: Self)
        ensures
            r.jwt.expiration_hours == 24,
            r.jwt.audience@ == "bevy-debugger-mcp"@,
            r.jwt.issuer@ == "bevy-debugger-mcp"@,
            r.rate_limit.requests_per_minute == 60,
            r.rate_limit.requests_per_hour == 1000,
            r.rate_limit.burst_size == 10,
            r.audit.max_memory_entries == 10000,
            r.audit.enable_file_logging,
            r.middleware.enable_cors,
            r.middleware.allowed_origins@.len() == 1,
            !r.middleware.enable_ip_whitelist,
    {
        SecurityConfig {
            jwt: JwtConfig::default(),
            rbac: RbacConfig::default(),
            rate_limit: RateLimitConfig::default(),
            audit: AuditConfig::default(),
            middleware: MiddlewareConfig::default(),
        }
    }
}

/// The first rule a configuration breaks, as the message that reports it.
pub open spec fn config_problem(c: SecurityConfig) -> Option<Seq<char>> {
    if c.jwt.expiration_hours == 0 {
        Some("JWT expiration hours must be greater than 0"@)
    } else if c.jwt.audience@.len() == 0 {
        Some("JWT audience cannot be empty"@)
    } else if c.jwt.issuer@.len() == 0 {
        Some("JWT issuer cannot be empty"@)
    } else if c.rate_limit.requests_per_minute == 0 {
        Some("Rate limit requests per minute must be greater than 0"@)
    } else if c.rate_limit.requests_per_hour == 0 {
        Some("Rate limit requests per hour must be greater than 0"@)
    } else if c.rate_limit.requests_per_hour < c.rate_limit.requests_per_minute {
        Some("Hourly rate limit must be greater than or equal to minute rate limit"@)
    } else if c.audit.max_memory_entries == 0 {
        Some("Audit max memory entries must be greater than 0"@)
    } else if c.middleware.enable_cors && c.middleware.allowed_origins@.len() == 0 {
        Some("CORS allowed origins cannot be empty when CORS is enabled"@)
    } else {
        None
    }
}

/// Settings that can be logged: no secrets.
#[derive(Debug, Clone)]
pub struct SecurityConfigSummary {
    pub jwt_expiration_hours: u32,
    pub jwt_audience: String,
    pub jwt_issuer: String,
    pub rate_limit_rpm: u32,
    pub rate_limit_rph: u32,
    pub rate_limit_burst: u32,
    pub audit_file_enabled: bool,
    pub audit_memory_entries: usize,
    pub cors_enabled: bool,
    pub ip_whitelist_enabled: bool,
}

impl SecurityConfig {
    /// Checks the rules on the settings, in order, and reports the first one
    /// broken.
    pub fn validate(&self) -> (r: Result<(), String>)
        ensures
            r is Ok <==> config_problem(*self) is None,
            r matches Err(m) ==> Some(m@) == config_problem(*self),
    {
        if self.jwt.expiration_hours == 0 {
            return Err(String::from_str("JWT expiration hours must be greater than 0"));
        }
        if self.jwt.audience.unicode_len() == 0 {
            return Err(String::from_str("JWT audience cannot be empty"));
        }
        if self.jwt.issuer.unicode_len() == 0 {
            return Err(String::from_str("JWT issuer cannot be empty"));
        }
        if self.rate_limit.requests_per_minute == 0 {
            return Err(String::from_str("Rate limit requests per minute must be greater than 0"));
        }
        if self.rate_limit.requests_per_hour == 0 {
            return Err(String::from_str("Rate limit requests per hour must be greater than 0"));
        }
        if self.rate_limit.requests_per_hour < self.rate_limit.requests_per_minute {
            return Err(
                String::from_str(
                    "Hourly rate limit must be greater than or equal to minute rate limit",
                ),
            );
        }
        if self.audit.max_memory_entries == 0 {
            return Err(String::from_str("Audit max memory entries must be greater than 0"));
        }
        if self.middleware.enable_cors && self.middleware.allowed_origins.len() == 0 {
            return Err(
                String::from_str("CORS allowed origins cannot be empty when CORS is enabled"),
            );
        }
        Ok(())
    }

    /// The settings that can be logged.
    pub fn summary(&self) -> (r: SecurityConfigSummary)
        ensures
            r.jwt_expiration_hours == self.jwt.expiration_hours,
            r.jwt_audience@ == self.jwt.audience@,
            r.jwt_issuer@ == self.jwt.issuer@,
            r.rate_limit_rpm == self.rate_limit.requests_per_minute,
            r.rate_limit_rph == self.rate_limit.requests_per_hour,
            r.rate_limit_burst == self.rate_limit.burst_size,
            r.audit_file_enabled == self.audit.enable_file_logging,
            r.audit_memory_entries == self.audit.max_memory_entries,
            r.cors_enabled == self.middleware.enable_cors,
            r.ip_whitelist_enabled == self.middleware.enable_ip_whitelist,
    {
        SecurityConfigSummary {
            jwt_expiration_hours: self.jwt.expiration_hours,
            jwt_audience: self.jwt.audience.clone(),
            jwt_issuer: self.jwt.issuer.clone(),
            rate_limit_rpm: self.rate_limit.requests_per_minute,
            rate_limit_rph: self.rate_limit.requests_per_hour,
            rate_limit_burst: self.rate_limit.burst_size,
            audit_file_enabled: self.audit.enable_file_logging,
            audit_memory_entries: self.audit.max_memory_entries,
            cors_enabled: self.middleware.enable_cors,
            ip_whitelist_enabled: self.middleware.enable_ip_whitelist,
        }
    }
}

} // verus!
