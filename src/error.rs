use vstd::prelude::*;

use crate::keyed::{latest, lemma_latest_push};
use crate::text::{
    contains_infix, decimal, has_infix, lowercase_of, push_decimal, str_eq, to_lowercase,
};

verus! {

/// How serious an error is.
#[derive(Debug, Clone, Copy, PartialEq, Eq, Structural)]
pub enum ErrorSeverity {
    Info,
    Warning,
    Error,
    Critical,
}

pub open spec fn severity_name(s: ErrorSeverity) -> Seq<char> {
    match s {
        ErrorSeverity::Info => "Info"@,
        ErrorSeverity::Warning => "Warning"@,
        ErrorSeverity::Error => "Error"@,
        ErrorSeverity::Critical => "Critical"@,
    }
}

impl ErrorSeverity {
    pub fn name(&self) -> (r: &'static str)
        ensures
            r@ == severity_name(*self),
    {
        match self {
            ErrorSeverity::Info => "Info",
            ErrorSeverity::Warning => "Warning",
            ErrorSeverity::Error => "Error",
            ErrorSeverity::Critical => "Critical",
        }
    }
}

/// An error with what is needed to trace it and recover from it.
#[derive(Debug, Clone)]
pub struct ErrorContext {
    pub error_id: String,
    /// Seconds since the epoch.
    pub timestamp: u64,
    pub operation: String,
    pub component: String,
    /// Causes, outermost first.
    pub error_chain: Vec<String>,
    /// Key and value pairs; a later pair for a key replaces an earlier one.
    pub context_data: Vec<(String, String)>,
    pub recovery_suggestions: Vec<String>,
    pub is_retryable: bool,
    pub severity: ErrorSeverity,
}

/// Relies on `uuid::Uuid::new_v4`: a random identifier, whose text is the
/// 36-character hyphenated form.
#[verifier::external_body]
pub(crate) fn fresh_error_id() -> (r: String)
    ensures
        r@.len() == 36,
{
    uuid::Uuid::new_v4().to_string()
}

/// Relies on `std::time::SystemTime::now`: the seconds since the epoch, or
/// zero for a clock set before it.
#[verifier::external_body]
pub(crate) fn unix_time_secs() -> (r: u64) {
    match std::time::SystemTime::now().duration_since(std::time::UNIX_EPOCH) {
        Ok(d) => d.as_secs(),
        Err(_) => 0,
    }
}

pub open spec fn pair_entries(v: Seq<(String, String)>) -> Seq<(Seq<char>, Seq<char>)> {
    v.map_values(|p: (String, String)| (p.0@, p.1@))
}

/// A key whose value is withheld: it names a password, token, secret or key.
pub open spec fn is_sensitive_key(key: Seq<char>) -> bool {
    let k = lowercase_of(key);
    has_infix(k, "password"@) || has_infix(k, "token"@) || has_infix(k, "secret"@) || has_infix(
        k,
        "key"@,
    )
}

pub open spec fn redacted() -> Seq<char> {
    "[REDACTED]"@
}

pub open spec fn strings_of(v: Seq<String>) -> Seq<Seq<char>> {
    v.map_values(|s: String| s@)
}

/// `"  <k>: <cause>\n"` for each cause, numbered from 1, over the first `n`.
pub open spec fn chain_text(chain: Seq<Seq<char>>, n: nat) -> Seq<char>
    decreases n,
{
    if n == 0 || n > chain.len() {
        Seq::empty()
    } else {
        chain_text(chain, (n - 1) as nat) + "  "@ + decimal(n) + ": "@ + chain[n - 1] + "\n"@
    }
}

/// A later entry has the same key as entry `k`.
pub open spec fn shadowed(entries: Seq<(Seq<char>, Seq<char>)>, k: int) -> bool {
    exists|j: int| k < j < entries.len() && #[trigger] entries[j].0 == entries[k].0
}

/// `"  <key>: <value>\n"` for each of the first `n` entries not replaced later.
pub open spec fn context_text(entries: Seq<(Seq<char>, Seq<char>)>, n: nat) -> Seq<char>
    decreases n,
{
    if n == 0 || n > entries.len() {
        Seq::empty()
    } else if shadowed(entries, n - 1) {
        context_text(entries, (n - 1) as nat)
    } else {
        context_text(entries, (n - 1) as nat) + "  "@ + entries[n - 1].0 + ": "@ + entries[n - 1].1
            + "\n"@
    }
}

/// `"  - <suggestion>\n"` for each of the first `n` suggestions.
pub open spec fn suggestion_text(s: Seq<Seq<char>>, n: nat) -> Seq<char>
    decreases n,
{
    if n == 0 || n > s.len() {
        Seq::empty()
    } else {
        suggestion_text(s, (n - 1) as nat) + "  - "@ + s[n - 1] + "\n"@
    }
}

pub open spec fn bool_text(b: bool) -> Seq<char> {
    if b {
        "true"@
    } else {
        "false"@
    }
}

/// The detailed report of an error.
pub open spec fn detailed_text(c: ErrorContext) -> Seq<char> {
    let chain = strings_of(c.error_chain@);
    let entries = pair_entries(c.context_data@);
    let sugg = strings_of(c.recovery_suggestions@);
    "Error ["@ + c.error_id@ + "] in "@ + c.component@ + " during "@ + c.operation@ + "\n"@ + (if chain.len()
        == 0 {
        Seq::empty()
    } else {
        "Error Chain:\n"@ + chain_text(chain, chain.len())
    }) + (if entries.len() == 0 {
        Seq::empty()
    } else {
        "Context:\n"@ + context_text(entries, entries.len())
    }) + (if sugg.len() == 0 {
        Seq::empty()
    } else {
        "Recovery Suggestions:\n"@ + suggestion_text(sugg, sugg.len())
    }) + "Retryable: "@ + bool_text(c.is_retryable) + "\n"@ + "Severity: "@ + severity_name(c.severity)
        + "\n"@
}

impl ErrorContext {
    /// Context data by key.
    pub open spec fn context_map(&self) -> Map<Seq<char>, Seq<char>> {
        latest(pair_entries(self.context_data@))
    }

    /// A context for an error of `operation` in `component`, with a fresh
    /// identifier and the current time; not retryable, of severity `Error`.
    pub fn new(operation: &str, component: &str) -> (r: Self)
        ensures
            r.error_id@.len() == 36,
            r.operation@ == operation@,
            r.component@ == component@,
            r.error_chain@.len() == 0,
            r.context_data@.len() == 0,
            r.recovery_suggestions@.len() == 0,
            !r.is_retryable,
            r.severity == ErrorSeverity::Error,
    {
        ErrorContext {
            error_id: fresh_error_id(),
            timestamp: unix_time_secs(),
            operation: String::from_str(operation),
            component: String::from_str(component),
            error_chain: Vec::new(),
            context_data: Vec::new(),
            recovery_suggestions: Vec::new(),
            is_retryable: false,
            severity: ErrorSeverity::Error,
        }
    }

    /// Adds a cause at the end of the chain.
    pub fn add_cause(self, cause: &str) -> (r: Self)
        ensures
            strings_of(r.error_chain@) == strings_of(self.error_chain@).push(cause@),
            r.context_data == self.context_data,
            r.recovery_suggestions == self.recovery_suggestions,
            r.error_id == self.error_id && r.operation == self.operation && r.component
                == self.component && r.timestamp == self.timestamp,
            r.is_retryable == self.is_retryable && r.severity == self.severity,
    {
        let mut s = self;
        let ghost before = s.error_chain@;
        s.error_chain.push(String::from_str(cause));
        assert(strings_of(s.error_chain@) =~= strings_of(before).push(cause@));
        s
    }

    /// Records a key and value; the value of a sensitive key is withheld.
    pub fn add_context(self, key: &str, value: &str) -> (r: Self)
        ensures
            r.context_map() == self.context_map().insert(
                key@,
                if is_sensitive_key(key@) {
                    redacted()
                } else {
                    value@
                },
            ),
            r.error_chain == self.error_chain,
            r.recovery_suggestions == self.recovery_suggestions,
            r.error_id == self.error_id && r.operation == self.operation && r.component
                == self.component && r.timestamp == self.timestamp,
            r.is_retryable == self.is_retryable && r.severity == self.severity,
    {
        let lower = to_lowercase(key);
        let sensitive = contains_infix(lower.as_str(), "password") || contains_infix(
            lower.as_str(),
            "token",
        ) || contains_infix(lower.as_str(), "secret") || contains_infix(lower.as_str(), "key");
        let stored = if sensitive {
            String::from_str("[REDACTED]")
        } else {
            String::from_str(value)
        };
        let mut s = self;
        let ghost before = s.context_data@;
        let ghost v = stored@;
        s.context_data.push((String::from_str(key), stored));
        proof {
            assert(pair_entries(s.context_data@) =~= pair_entries(before).push((key@, v)));
            lemma_latest_push(pair_entries(before), key@, v);
        }
        s
    }

    /// Adds a recovery suggestion at the end.
    pub fn add_recovery_suggestion(self, suggestion: &str) -> (r: Self)
        ensures
            strings_of(r.recovery_suggestions@) == strings_of(self.recovery_suggestions@).push(
                suggestion@,
            ),
            r.error_chain == self.error_chain,
            r.context_data == self.context_data,
            r.error_id == self.error_id && r.operation == self.operation && r.component
                == self.component && r.timestamp == self.timestamp,
            r.is_retryable == self.is_retryable && r.severity == self.severity,
    {
        let mut s = self;
        let ghost before = s.recovery_suggestions@;
        s.recovery_suggestions.push(String::from_str(suggestion));
        assert(strings_of(s.recovery_suggestions@) =~= strings_of(before).push(suggestion@));
        s
    }

    pub fn set_retryable(self, retryable: bool) -> (r: Self)
        ensures
            r == (ErrorContext { is_retryable: retryable, ..self }),
    {
        let mut s = self;
        s.is_retryable = retryable;
        s
    }

    pub fn set_severity(self, severity: ErrorSeverity) -> (r: Self)
        ensures
            r == (ErrorContext { severity, ..self }),
    {
        let mut s = self;
        s.severity = severity;
        s
    }

    /// The error as a detailed multi-line report.
    pub fn format_detailed(&self) -> (r: String)
        ensures
            r@ == detailed_text(*self),
    {
        let mut m = String::from_str("Error [");
        m.append(self.error_id.as_str());
        m.append("] in ");
        m.append(self.component.as_str());
        m.append(" during ");
        m.append(self.operation.as_str());
        m.append("\n");
        let ghost head = m@;
        let ghost chain = strings_of(self.error_chain@);
        if self.error_chain.len() > 0 {
            m.append("Error Chain:\n");
            let ghost start = m@;
            let mut i: usize = 0;
            while i < self.error_chain.len()
                invariant
                    i <= self.error_chain@.len(),
                    chain == strings_of(self.error_chain@),
                    m@ == start + chain_text(chain, i as nat),
                decreases self.error_chain@.len() - i,
            {
                m.append("  ");
                push_decimal(&mut m, (i + 1) as u64);
                m.append(": ");
                m.append(self.error_chain[i].as_str());
                m.append("\n");
                assert(chain[i as int] == self.error_chain@[i as int]@);
                assert(m@ =~= start + chain_text(chain, (i + 1) as nat));
                i = i + 1;
            }
            assert(m@ =~= head + ("Error Chain:\n"@ + chain_text(chain, chain.len())));
        } else {
            assert(m@ =~= head + Seq::<char>::empty());
        }
        let ghost after_chain = m@;
        let ghost entries = pair_entries(self.context_data@);
        if self.context_data.len() > 0 {
            m.append("Context:\n");
            let ghost start = m@;
            let mut i: usize = 0;
            while i < self.context_data.len()
                invariant
                    i <= self.context_data@.len(),
                    entries == pair_entries(self.context_data@),
                    m@ == start + context_text(entries, i as nat),
                decreases self.context_data@.len() - i,
            {
                if !self.is_shadowed(i) {
                    m.append("  ");
                    m.append(self.context_data[i].0.as_str());
                    m.append(": ");
                    m.append(self.context_data[i].1.as_str());
                    m.append("\n");
                }
                assert(entries[i as int] == (self.context_data@[i as int].0@, self.context_data@[i as int].1@));
                assert(m@ =~= start + context_text(entries, (i + 1) as nat));
                i = i + 1;
            }
            assert(m@ =~= after_chain + ("Context:\n"@ + context_text(entries, entries.len())));
        } else {
            assert(m@ =~= after_chain + Seq::<char>::empty());
        }
        let ghost after_context = m@;
        let ghost sugg = strings_of(self.recovery_suggestions@);
        if self.recovery_suggestions.len() > 0 {
            m.append("Recovery Suggestions:\n");
            let ghost start = m@;
            let mut i: usize = 0;
            while i < self.recovery_suggestions.len()
                invariant
                    i <= self.recovery_suggestions@.len(),
                    sugg == strings_of(self.recovery_suggestions@),
                    m@ == start + suggestion_text(sugg, i as nat),
                decreases self.recovery_suggestions@.len() - i,
            {
                m.append("  - ");
                m.append(self.recovery_suggestions[i].as_str());
                m.append("\n");
                assert(sugg[i as int] == self.recovery_suggestions@[i as int]@);
                assert(m@ =~= start + suggestion_text(sugg, (i + 1) as nat));
                i = i + 1;
            }
            assert(m@ =~= after_context + ("Recovery Suggestions:\n"@ + suggestion_text(sugg, sugg.len())));
        } else {
            assert(m@ =~= after_context + Seq::<char>::empty());
        }
        m.append("Retryable: ");
        m.append(if self.is_retryable {
            "true"
        } else {
            "false"
        });
        m.append("\n");
        m.append("Severity: ");
        m.append(self.severity.name());
        m.append("\n");
        assert(m@ =~= detailed_text(*self));
        m
    }

    /// A later context entry has the same key as entry `i`.
    fn is_shadowed(&self, i: usize) -> (r: bool)
        requires
            i < self.context_data@.len(),
        ensures
            r == shadowed(pair_entries(self.context_data@), i as int),
    {
        let ghost entries = pair_entries(self.context_data@);
        let n = self.context_data.len();
        let mut j: usize = i + 1;
        while j < n
            invariant
                n == self.context_data@.len(),
                i < j <= self.context_data@.len(),
                entries == pair_entries(self.context_data@),
                forall|k: int| i < k < j ==> entries[k].0 != entries[i as int].0,
            decreases self.context_data@.len() - j,
        {
            if str_eq(
                self.context_data[j].0.as_str(),
                self.context_data[i].0.as_str(),
            ) {
                assert(entries[j as int].0 == entries[i as int].0);
                return true;
            }
            j = j + 1;
        }
        false
    }
}

} // verus!
