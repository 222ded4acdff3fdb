use vstd::prelude::*;

use crate::dead_letter_queue::DeadLetterStats;
use crate::error::{unix_time_secs, ErrorContext};
use crate::text::{
    contains_infix, decimal, has_infix, has_prefix, push_decimal, starts_with, to_uppercase,
    uppercase_of,
};
use crate::text::str_eq;

verus! {

/// The process environment as seen for a bug report.
#[derive(Debug, Clone)]
pub struct EnvironmentInfo {
    pub environment_variables: Vec<(String, String)>,
    pub working_directory: String,
    pub config_values: Vec<(String, String)>,
    pub active_features: Vec<String>,
}

/// Errors seen recently, counted by severity and by component.
#[derive(Debug, Clone)]
pub struct ErrorSummary {
    pub total_errors: u32,
    pub error_by_severity: Vec<(String, u32)>,
    pub error_by_component: Vec<(String, u32)>,
    pub recent_errors: Vec<ErrorContext>,
    pub dead_letter_stats: Option<DeadLetterStats>,
}

/// The last `max` items of `s`.
pub open spec fn last_n<T>(s: Seq<T>, max: nat) -> Seq<T> {
    if s.len() > max {
        s.skip(s.len() - max)
    } else {
        s
    }
}

/// Keeps the most recent errors for diagnostic reports.
#[derive(Debug)]
pub struct DiagnosticCollector {
    recent_errors: Vec<ErrorContext>,
    max_errors: usize,
    start_time_secs: u64,
}

/// Variables whose value may go into a report: a Rust or Cargo setting or the
/// path, else none that names a credential, else a few well-known ones.
pub open spec fn env_var_is_safe(key: Seq<char>) -> bool {
    let u = uppercase_of(key);
    if has_prefix(u, "RUST_"@) || has_prefix(u, "CARGO_"@) || has_prefix(u, "PATH"@) {
        true
    } else if has_infix(u, "PASSWORD"@) || has_infix(u, "SECRET"@) || has_infix(u, "TOKEN"@)
        || has_infix(u, "KEY"@) || has_infix(u, "AUTH"@) {
        false
    } else {
        key == "USER"@ || key == "HOME"@ || key == "SHELL"@ || key == "TERM"@ || key == "PWD"@ || key
            == "LANG"@ || key == "LC_ALL"@
    }
}

impl DiagnosticCollector {
    pub closed spec fn errors(&self) -> Seq<ErrorContext> {
        self.recent_errors@
    }

    pub closed spec fn capacity(&self) -> nat {
        self.max_errors as nat
    }

    /// A collector that keeps at most `max_errors` errors.
    pub fn new(max_errors: usize) -> (r: Self)
        ensures
            r.errors().len() == 0,
            r.capacity() == max_errors,
    {
        DiagnosticCollector { recent_errors: Vec::new(), max_errors, start_time_secs: unix_time_secs() }
    }

    /// Records an error; only the most recent `capacity` errors are kept.
    pub fn record_error(&mut self, error_context: ErrorContext)
        ensures
            final(self).errors() == last_n(old(self).errors().push(error_context), old(self).capacity()),
            final(self).capacity() == old(self).capacity(),
            final(self).started_at() == old(self).started_at(),
    {
        let ghost pushed = self.recent_errors@.push(error_context);
        self.recent_errors.push(error_context);
        let len = self.recent_errors.len();
        if len > self.max_errors {
            let excess = len - self.max_errors;
            let mut k: usize = 0;
            while k < excess
                invariant
                    k <= excess,
                    excess == len - self.max_errors,
                    len == pushed.len(),
                    self.max_errors == old(self).max_errors,
                    self.start_time_secs == old(self).start_time_secs,
                    self.recent_errors@ == pushed.skip(k as int),
                decreases excess - k,
            {
                let _ = self.recent_errors.remove(0);
                assert(pushed.skip(k as int).remove(0) =~= pushed.skip(k + 1));
                k = k + 1;
            }
        }
    }

    /// The errors kept, oldest first.
    pub fn recent_errors(&self) -> (r: &[ErrorContext])
        ensures
            r@ == self.errors(),
    {
        self.recent_errors.as_slice()
    }

    /// Seconds since the epoch at which the collector started.
    pub closed spec fn started_at(&self) -> u64 {
        self.start_time_secs
    }

    /// Seconds since the epoch at which the collector started.
    pub fn start_time_secs(&self) -> (r: u64)
        ensures
            r == self.started_at(),
    {
        self.start_time_secs
    }

    /// Whether an environment variable may be shown in a report.
    pub fn is_safe_env_var(key: &str) -> (r: bool)
        ensures
            r == env_var_is_safe(key@),
    {
        let upper = to_uppercase(key);
        let u = upper.as_str();
        if starts_with(u, "RUST_") || starts_with(u, "CARGO_") || starts_with(u, "PATH") {
            return true;
        }
        if contains_infix(u, "PASSWORD") || contains_infix(u, "SECRET") || contains_infix(u, "TOKEN")
            || contains_infix(u, "KEY") || contains_infix(u, "AUTH") {
            return false;
        }
        str_eq(key, "USER") || str_eq(key, "HOME") || str_eq(key, "SHELL") || str_eq(key, "TERM")
            || str_eq(key, "PWD") || str_eq(key, "LANG") || str_eq(key, "LC_ALL")
    }
}

pub open spec fn count_entries(v: Seq<(String, u32)>) -> Seq<(Seq<char>, u32)> {
    v.map_values(|e: (String, u32)| (e.0@, e.1))
}

/// `"  <name>: <count>\n"` for each of the first `n` entries.
pub open spec fn count_lines(e: Seq<(Seq<char>, u32)>, n: nat) -> Seq<char>
    decreases n,
{
    if n == 0 || n > e.len() {
        Seq::empty()
    } else {
        count_lines(e, (n - 1) as nat) + "  "@ + e[n - 1].0 + ": "@ + decimal(e[n - 1].1 as nat) + "\n"@
    }
}

/// A titled section of counts, or nothing when there are none.
pub open spec fn count_section(title: Seq<char>, e: Seq<(Seq<char>, u32)>) -> Seq<char> {
    if e.len() == 0 {
        Seq::empty()
    } else {
        title + count_lines(e, e.len())
    }
}

fn push_counts(out: &mut String, entries: &Vec<(String, u32)>)
    ensures
        final(out)@ == old(out)@ + count_lines(count_entries(entries@), entries@.len()),
{
    let ghost e = count_entries(entries@);
    let ghost start = out@;
    let mut i: usize = 0;
    while i < entries.len()
        invariant
            i <= entries@.len(),
            e == count_entries(entries@),
            out@ == start + count_lines(e, i as nat),
        decreases entries@.len() - i,
    {
        out.append("  ");
        out.append(entries[i].0.as_str());
        out.append(": ");
        push_decimal(out, entries[i].1 as u64);
        out.append("\n");
        assert(e[i as int] == (entries@[i as int].0@, entries@[i as int].1));
        assert(out@ =~= start + count_lines(e, (i + 1) as nat));
        i = i + 1;
    }
}

/// The counts of a summary, by severity and then by component.
pub fn format_error_summary(summary: &ErrorSummary) -> (r: String)
    ensures
        r@ == count_section("By Severity:\n"@, count_entries(summary.error_by_severity@))
            + count_section("By Component:\n"@, count_entries(summary.error_by_component@)),
{
    let mut result = String::new();
    if summary.error_by_severity.len() > 0 {
        result.append("By Severity:\n");
        push_counts(&mut result, &summary.error_by_severity);
    }
    let ghost mid = result@;
    if summary.error_by_component.len() > 0 {
        result.append("By Component:\n");
        push_counts(&mut result, &summary.error_by_component);
    }
    assert(result@ =~= count_section("By Severity:\n"@, count_entries(summary.error_by_severity@))
        + count_section("By Component:\n"@, count_entries(summary.error_by_component@)));
    result
}

pub open spec fn check_entries(v: Seq<(String, bool)>) -> Seq<(Seq<char>, bool)> {
    v.map_values(|e: (String, bool)| (e.0@, e.1))
}

/// `"  <check>: ✓\n"` or `"  <check>: ✗\n"` for each of the first `n` checks.
pub open spec fn health_lines(e: Seq<(Seq<char>, bool)>, n: nat) -> Seq<char>
    decreases n,
{
    if n == 0 || n > e.len() {
        Seq::empty()
    } else {
        health_lines(e, (n - 1) as nat) + "  "@ + e[n - 1].0 + ": "@ + (if e[n - 1].1 {
            "✓"@
        } else {
            "✗"@
        }) + "\n"@
    }
}

/// One line per health check, in the given order, marked passed or failed.
pub fn format_health_checks(checks: &Vec<(String, bool)>) -> (r: String)
    ensures
        r@ == health_lines(check_entries(checks@), checks@.len()),
{
    let ghost e = check_entries(checks@);
    let mut result = String::new();
    let mut i: usize = 0;
    while i < checks.len()
        invariant
            i <= checks@.len(),
            e == check_entries(checks@),
            result@ == health_lines(e, i as nat),
        decreases checks@.len() - i,
    {
        result.append("  ");
        result.append(checks[i].0.as_str());
        result.append(": ");
        result.append(if checks[i].1 {
            "✓"
        } else {
            "✗"
        });
        result.append("\n");
        assert(e[i as int] == (checks@[i as int].0@, checks@[i as int].1));
        assert(result@ =~= health_lines(e, (i + 1) as nat));
        i = i + 1;
    }
    result
}

} // verus!
