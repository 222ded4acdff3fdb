use vstd::prelude::*;

use crate::diagnostics::last_n;
use crate::error::{fresh_error_id, unix_time_secs};
use crate::security::rbac::Role;
use crate::security::SecurityContext;
use crate::text::push_decimal;
use crate::text::str_eq;

verus! {

/// What the audit log records, and where.
#[derive(Debug, Clone)]
pub struct AuditConfig {
    pub enable_file_logging: bool,
    pub log_file_path: String,
    pub max_memory_entries: usize,
    pub log_successful_operations: bool,
    pub log_failed_operations: bool,
    pub log_authentication_events: bool,
    pub log_authorization_events: bool,
    pub log_rate_limit_events: bool,
}

impl Default for AuditConfig {
    fn default() -> (r: Self)
        ensures
            r.enable_file_logging,
            r.log_file_path@ == "bevy_debugger_audit.log"@,
            r.max_memory_entries == 10000,
            r.log_successful_operations,
            r.log_failed_operations,
            r.log_authentication_events,
            r.log_authorization_events,
            r.log_rate_limit_events,
    {
        AuditConfig {
            enable_file_logging: true,
            log_file_path: String::from_str("bevy_debugger_audit.log"),
            max_memory_entries: 10000,
            log_successful_operations: true,
            log_failed_operations: true,
            log_authentication_events: true,
            log_authorization_events: true,
            log_rate_limit_events: true,
        }
    }
}

/// Kinds of audit events.
#[derive(Debug, Clone, Copy, PartialEq, Eq, Structural)]
pub enum AuditEventType {
    Authentication,
    Authorization,
    Operation,
    RateLimit,
    Security,
    System,
}

/// What the audit log keeps of the caller's session.
#[derive(Debug, Clone)]
pub struct SecurityContextSummary {
    pub user_id: String,
    pub role: String,
    pub session_id: String,
    /// Seconds since the epoch.
    pub authenticated_at: u64,
}

/// One audit record; `timestamp` is seconds since the epoch and `details`
/// holds key and value pairs.
#[derive(Debug, Clone)]
pub struct AuditEvent {
    pub event_id: String,
    pub timestamp: u64,
    pub event_type: AuditEventType,
    pub user_id: Option<String>,
    pub session_id: Option<String>,
    pub client_ip: Option<String>,
    pub user_agent: Option<String>,
    pub operation: String,
    pub resource: Option<String>,
    pub success: bool,
    pub details: Vec<(String, String)>,
    pub security_context: Option<SecurityContextSummary>,
}

/// Which events a search returns; an absent criterion admits every event.
#[derive(Debug, Clone)]
pub struct AuditSearchCriteria {
    pub user_id: Option<String>,
    pub event_type: Option<AuditEventType>,
    pub start_time: Option<u64>,
    pub end_time: Option<u64>,
    pub success: Option<bool>,
}

/// An event meets every given criterion.
pub open spec fn event_matches(c: AuditSearchCriteria, e: AuditEvent) -> bool {
    &&& (c.user_id matches Some(u) ==> (e.user_id matches Some(v) && v@ == u@))
    &&& (c.event_type matches Some(t) ==> e.event_type == t)
    &&& (c.start_time matches Some(s) ==> e.timestamp >= s)
    &&& (c.end_time matches Some(t) ==> e.timestamp <= t)
    &&& (c.success matches Some(b) ==> e.success == b)
}

pub open spec fn derefs(s: Seq<&AuditEvent>) -> Seq<AuditEvent> {
    s.map_values(|e: &AuditEvent| *e)
}

pub open spec fn match_pred(c: AuditSearchCriteria) -> spec_fn(AuditEvent) -> bool {
    |e: AuditEvent| event_matches(c, e)
}

fn matches_criteria(c: &AuditSearchCriteria, e: &AuditEvent) -> (r: bool)
    ensures
        r == event_matches(*c, *e),
{
    match &c.user_id {
        Some(u) => match &e.user_id {
            Some(v) => {
                if !str_eq(v.as_str(), u.as_str()) {
                    return false;
                }
            },
            None => {
                return false;
            },
        },
        None => {},
    }
    match c.event_type {
        Some(t) => {
            if e.event_type != t {
                return false;
            }
        },
        None => {},
    }
    match c.start_time {
        Some(s) => {
            if e.timestamp < s {
                return false;
            }
        },
        None => {},
    }
    match c.end_time {
        Some(t) => {
            if e.timestamp > t {
                return false;
            }
        },
        None => {},
    }
    match c.success {
        Some(b) => e.success == b,
        None => true,
    }
}

/// The recent audit records kept in memory, and counters of refusals.
#[derive(Debug)]
pub struct AuditLogger {
    config: AuditConfig,
    memory_log: Vec<AuditEvent>,
    failed_auth_count: u64,
    authorization_denial_count: u64,
}

impl AuditLogger {
    pub closed spec fn events(&self) -> Seq<AuditEvent> {
        self.memory_log@
    }

    pub closed spec fn settings(&self) -> AuditConfig {
        self.config
    }

    pub fn new(config: AuditConfig) -> (r: Self)
        ensures
            r.events().len() == 0,
            r.settings() == config,
    {
        AuditLogger { config, memory_log: Vec::new(), failed_auth_count: 0, authorization_denial_count: 0 }
    }

    /// Keeps an event in memory, dropping the oldest beyond the configured
    /// number; says whether the event also goes to the log file.
    pub fn record_event(&mut self, event: AuditEvent) -> (r: bool)
        ensures
            final(self).events() == last_n(
                old(self).events().push(event),
                old(self).settings().max_memory_entries as nat,
            ),
            final(self).settings() == old(self).settings(),
            final(self).failed_authentications() == old(self).failed_authentications(),
            final(self).authorization_denials() == old(self).authorization_denials(),
            r == old(self).settings().enable_file_logging,
    {
        let ghost pushed = self.memory_log@.push(event);
        self.memory_log.push(event);
        let len = self.memory_log.len();
        if len > self.config.max_memory_entries {
            let excess = len - self.config.max_memory_entries;
            let mut k: usize = 0;
            while k < excess
                invariant
                    k <= excess,
                    excess == len - self.config.max_memory_entries,
                    len == pushed.len(),
                    self.config == old(self).config,
                    self.failed_auth_count == old(self).failed_auth_count,
                    self.authorization_denial_count == old(self).authorization_denial_count,
                    self.memory_log@ == pushed.skip(k as int),
                decreases excess - k,
            {
                let _ = self.memory_log.remove(0);
                assert(pushed.skip(k as int).remove(0) =~= pushed.skip(k + 1));
                k = k + 1;
            }
        }
        self.config.enable_file_logging
    }

    /// The kept events that meet the criteria, oldest first.
    pub fn search_events(&self, criteria: &AuditSearchCriteria) -> (r: Vec<&AuditEvent>)
        ensures
            derefs(r@) == self.events().filter(match_pred(*criteria)),
    {
        let ghost q = self.memory_log@;
        let mut out: Vec<&AuditEvent> = Vec::new();
        let mut i: usize = 0;
        while i < self.memory_log.len()
            invariant
                i <= q.len(),
                q == self.memory_log@,
                derefs(out@) == q.take(i as int).filter(match_pred(*criteria)),
            decreases q.len() - i,
        {
            let e = &self.memory_log[i];
            proof {
                assert(q.take(i + 1).drop_last() =~= q.take(i as int));
                reveal(Seq::filter);
            }
            let ghost before = out@;
            if matches_criteria(criteria, e) {
                out.push(e);
                assert(derefs(out@) =~= derefs(before).push(*e));
            }
            i = i + 1;
        }
        assert(q.take(q.len() as int) =~= q);
        out
    }
}

pub open spec fn role_name(r: Role) -> Seq<char> {
    match r {
        Role::Viewer => "Viewer"@,
        Role::Developer => "Developer"@,
        Role::Admin => "Admin"@,
    }
}

fn role_text(r: Role) -> (s: String)
    ensures
        s@ == role_name(r),
{
    match r {
        Role::Viewer => String::from_str("Viewer"),
        Role::Developer => String::from_str("Developer"),
        Role::Admin => String::from_str("Admin"),
    }
}

fn clone_opt(o: &Option<String>) -> (r: Option<String>)
    ensures
        r is Some <==> o is Some,
        r matches Some(v) ==> v@ == o->Some_0@,
{
    match o {
        Some(v) => Some(v.clone()),
        None => None,
    }
}

impl SecurityContextSummary {
    /// What the log keeps of a context.
    pub fn from_context(context: &SecurityContext) -> (r: Self)
        ensures
            r.user_id@ == context.user_id@,
            r.role@ == role_name(context.role),
            r.session_id@ == context.session_id@,
            r.authenticated_at == context.authenticated_at,
    {
        SecurityContextSummary {
            user_id: context.user_id.clone(),
            role: role_text(context.role),
            session_id: context.session_id.clone(),
            authenticated_at: context.authenticated_at,
        }
    }
}

pub open spec fn pair_view(v: Seq<(String, String)>) -> Seq<(Seq<char>, Seq<char>)> {
    v.map_values(|p: (String, String)| (p.0@, p.1@))
}

/// An event of `kind` about `context`, with the given operation, resource and
/// outcome.
pub open spec fn about_context(
    e: AuditEvent,
    context: SecurityContext,
    kind: AuditEventType,
    operation: Seq<char>,
    resource: Option<Seq<char>>,
    success: bool,
) -> bool {
    &&& e.event_id@.len() == 36
    &&& e.event_type == kind
    &&& e.user_id matches Some(u) && u@ == context.user_id@
    &&& e.session_id matches Some(u) && u@ == context.session_id@
    &&& (e.client_ip is Some <==> context.client_ip is Some)
    &&& (e.client_ip matches Some(ip) ==> ip@ == context.client_ip->Some_0@)
    &&& (e.user_agent is Some <==> context.user_agent is Some)
    &&& (e.user_agent matches Some(ua) ==> ua@ == context.user_agent->Some_0@)
    &&& e.operation@ == operation
    &&& (e.resource is Some <==> resource is Some)
    &&& (e.resource matches Some(r) ==> r@ == resource->Some_0)
    &&& e.success == success
    &&& e.security_context matches Some(sc) && sc.user_id@ == context.user_id@ && sc.role@ == role_name(
        context.role,
    ) && sc.session_id@ == context.session_id@ && sc.authenticated_at == context.authenticated_at
}

fn context_event(
    context: &SecurityContext,
    kind: AuditEventType,
    operation: &str,
    resource: Option<&str>,
    success: bool,
    details: Vec<(String, String)>,
) -> (e: AuditEvent)
    ensures
        about_context(e, *context, kind, operation@, match resource {
            Some(r) => Some(r@),
            None => None,
        }, success),
        e.details == details,
{
    AuditEvent {
        event_id: fresh_error_id(),
        timestamp: unix_time_secs(),
        event_type: kind,
        user_id: Some(context.user_id.clone()),
        session_id: Some(context.session_id.clone()),
        client_ip: clone_opt(&context.client_ip),
        user_agent: clone_opt(&context.user_agent),
        operation: String::from_str(operation),
        resource: match resource {
            Some(r) => Some(String::from_str(r)),
            None => None,
        },
        success,
        details,
        security_context: Some(SecurityContextSummary::from_context(context)),
    }
}

fn detail(key: &str, value: String) -> (r: (String, String))
    ensures
        r.0@ == key@,
        r.1 == value,
{
    (String::from_str(key), value)
}

/// The newest `limit` events, newest first.
pub open spec fn newest_first(s: Seq<AuditEvent>, limit: nat) -> Seq<AuditEvent> {
    let n = if limit < s.len() {
        limit
    } else {
        s.len()
    };
    Seq::new(n, |i: int| s[s.len() - 1 - i])
}

impl AuditLogger {
    pub closed spec fn failed_authentications(&self) -> u64 {
        self.failed_auth_count
    }

    pub closed spec fn authorization_denials(&self) -> u64 {
        self.authorization_denial_count
    }

    /// Records that `context` authenticated, when authentication events are
    /// logged; says whether an event was recorded.
    pub fn log_authentication(&mut self, context: &SecurityContext) -> (r: bool)
        ensures
            final(self).settings() == old(self).settings(),
            final(self).authorization_denials() == old(self).authorization_denials(),
            final(self).failed_authentications() == old(self).failed_authentications(),
            r == old(self).settings().log_authentication_events,
            !r ==> final(self).events() == old(self).events(),
            r ==> exists|e: AuditEvent|
                final(self).events() == last_n(
                    old(self).events().push(e),
                    old(self).settings().max_memory_entries as nat,
                ) && about_context(e, *context, AuditEventType::Authentication, "authenticate"@, None, true)
                    && pair_view(e.details@) == seq![
                    ("role"@, role_name(context.role)),
                    ("permissions_count"@, crate::text::decimal(context.permissions@.len())),
                ],
    {
        if !self.config.log_authentication_events {
            return false;
        }
        let mut count = String::new();
        push_decimal(&mut count, context.permissions.len() as u64);
        let mut details: Vec<(String, String)> = Vec::new();
        details.push(detail("role", role_text(context.role)));
        details.push(detail("permissions_count", count));
        let e = context_event(context, AuditEventType::Authentication, "authenticate", None, true, details);
        assert(pair_view(e.details@) =~= seq![
            ("role"@, role_name(context.role)),
            ("permissions_count"@, crate::text::decimal(context.permissions@.len())),
        ]);
        self.record_event(e);
        true
    }

    /// Records an operation by `context` on `resource`, when successful
    /// operations are logged; says whether an event was recorded.
    pub fn log_operation(&mut self, context: &SecurityContext, operation: &str, resource: &str) -> (r: bool)
        ensures
            final(self).settings() == old(self).settings(),
            final(self).authorization_denials() == old(self).authorization_denials(),
            final(self).failed_authentications() == old(self).failed_authentications(),
            r == old(self).settings().log_successful_operations,
            !r ==> final(self).events() == old(self).events(),
            r ==> exists|e: AuditEvent|
                final(self).events() == last_n(
                    old(self).events().push(e),
                    old(self).settings().max_memory_entries as nat,
                ) && about_context(
                    e,
                    *context,
                    AuditEventType::Operation,
                    operation@,
                    Some(resource@),
                    true,
                ) && pair_view(e.details@) == seq![("role"@, role_name(context.role))],
    {
        if !self.config.log_successful_operations {
            return false;
        }
        let mut details: Vec<(String, String)> = Vec::new();
        details.push(detail("role", role_text(context.role)));
        let e = context_event(context, AuditEventType::Operation, operation, Some(resource), true, details);
        assert(pair_view(e.details@) =~= seq![("role"@, role_name(context.role))]);
        self.record_event(e);
        true
    }

    /// Records and counts a refused operation, when authorization events are
    /// logged; says whether an event was recorded.
    pub fn log_authorization_denied(&mut self, context: &SecurityContext, operation: &str, resource: &str) -> (r: bool)
        ensures
            final(self).settings() == old(self).settings(),
            final(self).failed_authentications() == old(self).failed_authentications(),
            r == old(self).settings().log_authorization_events,
            !r ==> final(self).events() == old(self).events() && final(self).authorization_denials()
                == old(self).authorization_denials(),
            r ==> final(self).authorization_denials() == if old(self).authorization_denials() == u64::MAX {
                u64::MAX
            } else {
                (old(self).authorization_denials() + 1) as u64
            },
            r ==> exists|e: AuditEvent|
                final(self).events() == last_n(
                    old(self).events().push(e),
                    old(self).settings().max_memory_entries as nat,
                ) && about_context(
                    e,
                    *context,
                    AuditEventType::Authorization,
                    operation@,
                    Some(resource@),
                    false,
                ) && pair_view(e.details@) == seq![
                    ("role"@, role_name(context.role)),
                    ("attempted_operation"@, operation@),
                    ("attempted_resource"@, resource@),
                ],
    {
        if !self.config.log_authorization_events {
            return false;
        }
        self.authorization_denial_count = self.authorization_denial_count.saturating_add(1);
        let mut details: Vec<(String, String)> = Vec::new();
        details.push(detail("role", role_text(context.role)));
        details.push(detail("attempted_operation", String::from_str(operation)));
        details.push(detail("attempted_resource", String::from_str(resource)));
        let e = context_event(context, AuditEventType::Authorization, operation, Some(resource), false, details);
        assert(pair_view(e.details@) =~= seq![
            ("role"@, role_name(context.role)),
            ("attempted_operation"@, operation@),
            ("attempted_resource"@, resource@),
        ]);
        self.record_event(e);
        true
    }

    pub fn get_authorization_denial_count(&self) -> (r: u64)
        ensures
            r == self.authorization_denials(),
    {
        self.authorization_denial_count
    }

    pub fn get_failed_auth_count(&self) -> (r: u64)
        ensures
            r == self.failed_authentications(),
    {
        self.failed_auth_count
    }

    /// The newest `limit` events, newest first.
    pub fn get_recent_events(&self, limit: usize) -> (r: Vec<&AuditEvent>)
        ensures
            derefs(r@) == newest_first(self.events(), limit as nat),
    {
        let len = self.memory_log.len();
        let n = if limit < len {
            limit
        } else {
            len
        };
        let mut out: Vec<&AuditEvent> = Vec::new();
        let mut i: usize = 0;
        while i < n
            invariant
                n <= len,
                len == self.memory_log@.len(),
                n == if (limit as nat) < self.memory_log@.len() { limit as nat } else { self.memory_log@.len() },
                i <= n,
                derefs(out@) == newest_first(self.events(), limit as nat).take(i as int),
            decreases n - i,
        {
            let ghost before = out@;
            let e = &self.memory_log[len - 1 - i];
            out.push(e);
            proof {
                let nf = newest_first(self.events(), limit as nat);
                assert(derefs(out@) =~= derefs(before).push(*e));
                assert(nf[i as int] == self.memory_log@[len - 1 - i]);
                assert(nf.take(i + 1) =~= nf.take(i as int).push(nf[i as int]));
            }
            i = i + 1;
        }
        assert(newest_first(self.events(), limit as nat).take(n as int) =~= newest_first(
            self.events(),
            limit as nat,
        ));
        out
    }
}

} // verus!
