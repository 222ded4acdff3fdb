use vstd::prelude::*;

use crate::keyed::{latest, lemma_latest_lookup, lemma_latest_push};
use crate::text::{decimal, push_decimal, str_eq};

pub use crate::graph::{DependencyGraph, GraphError};

verus! {

/// Identifier of one tool invocation; a generator never hands out one twice.
#[derive(Debug, Clone, Copy, PartialEq, Eq, Structural, Hash)]
pub struct ExecutionId {
    pub value: u64,
}

impl ExecutionId {
    /// Text form, `exec-` and the number in decimal.
    pub fn as_text(&self) -> (r: String)
        ensures
            r@ == "exec-"@ + decimal(self.value as nat),
    {
        let mut s = String::from_str("exec-");
        push_decimal(&mut s, self.value);
        s
    }

    /// The number behind the identifier.
    pub fn value(&self) -> (r: u64)
        ensures
            r == self.value,
    {
        self.value
    }
}

/// Mints execution identifiers from a counter. Shared between callers behind a
/// lock, it keeps identifiers distinct across concurrent invocations too.
#[derive(Debug)]
pub struct ExecutionIdGenerator {
    next: u64,
}

impl ExecutionIdGenerator {
    /// The identifiers handed out so far.
    pub closed spec fn issued(&self) -> Set<u64> {
        Set::new(|v: u64| v < self.next)
    }

    /// How many identifiers were handed out.
    pub closed spec fn count(&self) -> nat {
        self.next as nat
    }

    /// Identifiers can still be minted.
    pub open spec fn can_mint(&self) -> bool {
        self.count() < u64::MAX
    }

    pub fn new() -> (r: Self)
        ensures
            r.issued() == Set::<u64>::empty(),
            r.count() == 0,
    {
        let r = ExecutionIdGenerator { next: 0 };
        assert(r.issued() =~= Set::<u64>::empty());
        r
    }

    /// Whether another identifier can be minted.
    pub fn has_capacity(&self) -> (r: bool)
        ensures
            r == self.can_mint(),
    {
        self.next < u64::MAX
    }

    /// Hands out an identifier never handed out before.
    pub fn mint(&mut self) -> (r: ExecutionId)
        requires
            old(self).can_mint(),
        ensures
            !old(self).issued().contains(r.value),
            final(self).issued() == old(self).issued().insert(r.value),
            final(self).count() == old(self).count() + 1,
    {
        let r = ExecutionId { value: self.next };
        self.next = self.next + 1;
        assert(final(self).issued() =~= old(self).issued().insert(r.value));
        r
    }
}

/// Identifiers minted one after another by one generator are pairwise distinct.
pub proof fn lemma_minted_ids_distinct(ids: Seq<ExecutionId>, issued: Seq<Set<u64>>)
    requires
        issued.len() == ids.len() + 1,
        forall|k: int|
            0 <= k < ids.len() ==> !(#[trigger] issued[k]).contains(ids[k].value) && issued[k
                + 1] == issued[k].insert(ids[k].value),
    ensures
        forall|a: int, b: int| 0 <= a < b < ids.len() ==> ids[a] != ids[b],
{
    assert forall|a: int, b: int| 0 <= a < b < ids.len() implies ids[a] != ids[b] by {
        lemma_issued_grows(ids, issued, a, b);
    }
}

/// Once minted, an identifier stays among the issued ones.
proof fn lemma_issued_grows(ids: Seq<ExecutionId>, issued: Seq<Set<u64>>, a: int, b: int)
    requires
        issued.len() == ids.len() + 1,
        forall|k: int|
            0 <= k < ids.len() ==> !(#[trigger] issued[k]).contains(ids[k].value) && issued[k
                + 1] == issued[k].insert(ids[k].value),
        0 <= a < b <= ids.len(),
    ensures
        issued[b].contains(ids[a].value),
    decreases b - a,
{
    if b > a + 1 {
        lemma_issued_grows(ids, issued, a, b - 1);
        assert(issued[b] == issued[b - 1].insert(ids[b - 1].value));
    } else {
        assert(issued[a + 1] == issued[a].insert(ids[a].value));
    }
}

/// How the wait between attempts grows.
#[derive(Debug, Clone, Copy, PartialEq, Eq, Structural)]
pub enum BackoffType {
    Fixed,
    Exponential,
}

/// Per-step retry policy; delays are in milliseconds.
#[derive(Debug, Clone, Copy, PartialEq, Eq, Structural)]
pub struct RetryConfig {
    pub max_attempts: u32,
    pub backoff_type: BackoffType,
    pub initial_delay_ms: u64,
    pub max_delay_ms: u64,
}

impl Default for RetryConfig {
    fn default() -> (r: Self)
        ensures
            r.max_attempts == 3,
            r.backoff_type == BackoffType::Exponential,
            r.initial_delay_ms == 100,
            r.max_delay_ms == 30_000,
    {
        RetryConfig {
            max_attempts: 3,
            backoff_type: BackoffType::Exponential,
            initial_delay_ms: 100,
            max_delay_ms: 30_000,
        }
    }
}

pub open spec fn min_int(a: int, b: int) -> int {
    if a <= b {
        a
    } else {
        b
    }
}

/// The wait after failed attempt `attempt` (counted from 1): the initial delay,
/// doubled for each further attempt under `Exponential`, never above the maximum.
pub open spec fn backoff_delay(cfg: RetryConfig, attempt: nat) -> int
    decreases attempt,
{
    if attempt <= 1 || cfg.backoff_type == BackoffType::Fixed {
        min_int(cfg.initial_delay_ms as int, cfg.max_delay_ms as int)
    } else {
        min_int(2 * backoff_delay(cfg, (attempt - 1) as nat), cfg.max_delay_ms as int)
    }
}

impl RetryConfig {
    /// The wait after failed attempt `attempt`.
    pub fn delay_after(&self, attempt: u32) -> (r: u64)
        ensures
            r == backoff_delay(*self, attempt as nat),
    {
        let mut d: u64 = if self.initial_delay_ms <= self.max_delay_ms {
            self.initial_delay_ms
        } else {
            self.max_delay_ms
        };
        if self.backoff_type == BackoffType::Fixed {
            return d;
        }
        let mut k: u32 = 1;
        while k < attempt
            invariant
                1 <= k,
                k <= attempt || k == 1,
                self.backoff_type == BackoffType::Exponential,
                d == backoff_delay(*self, k as nat),
                d <= self.max_delay_ms,
            decreases attempt - k,
        {
            d = if d > self.max_delay_ms / 2 {
                self.max_delay_ms
            } else {
                2 * d
            };
            k = k + 1;
        }
        proof {
            if attempt <= 1 {
                assert(backoff_delay(*self, attempt as nat) == backoff_delay(*self, 1));
            }
        }
        d
    }

    /// After failed attempt `attempt`, another attempt is still allowed.
    pub fn allows_retry(&self, attempt: u32) -> (r: bool)
        ensures
            r == (attempt < self.max_attempts),
    {
        attempt < self.max_attempts
    }
}

/// Under any policy the wait never exceeds the maximum delay, and under
/// `Exponential` it never shrinks from one attempt to the next.
pub proof fn lemma_backoff_monotone_bounded(cfg: RetryConfig, attempt: nat)
    ensures
        backoff_delay(cfg, attempt) <= cfg.max_delay_ms,
        cfg.backoff_type == BackoffType::Exponential ==> backoff_delay(cfg, attempt)
            <= backoff_delay(cfg, attempt + 1),
    decreases attempt,
{
    if attempt > 1 && cfg.backoff_type == BackoffType::Exponential {
        lemma_backoff_monotone_bounded(cfg, (attempt - 1) as nat);
    }
    assert(backoff_delay(cfg, attempt) >= 0) by {
        lemma_backoff_nonneg(cfg, attempt);
    }
}

proof fn lemma_backoff_nonneg(cfg: RetryConfig, attempt: nat)
    ensures
        backoff_delay(cfg, attempt) >= 0,
    decreases attempt,
{
    if attempt > 1 && cfg.backoff_type == BackoffType::Exponential {
        lemma_backoff_nonneg(cfg, (attempt - 1) as nat);
    }
}

/// Settings of one pipeline run's context; times are in milliseconds.
#[derive(Debug, Clone, Copy, PartialEq, Eq, Structural)]
pub struct ToolContextConfig {
    pub auto_record: bool,
    pub auto_experiment: bool,
    pub cache_results: bool,
    pub max_execution_time_ms: u64,
    pub debug_mode: bool,
}

/// The settings a new context starts with.
pub open spec fn default_context_config() -> ToolContextConfig {
    ToolContextConfig {
        auto_record: true,
        auto_experiment: false,
        cache_results: true,
        max_execution_time_ms: 300_000,
        debug_mode: false,
    }
}

impl Default for ToolContextConfig {
    fn default() -> (r: Self)
        ensures
            r == default_context_config(),
    {
        ToolContextConfig {
            auto_record: true,
            auto_experiment: false,
            cache_results: true,
            max_execution_time_ms: 300_000,
            debug_mode: false,
        }
    }
}

/// What one tool invocation produced. `output` is the tool's payload as JSON
/// text, which the orchestrator carries without reading.
#[derive(Debug, Clone)]
pub struct ToolResult {
    pub tool_name: String,
    pub execution_id: ExecutionId,
    pub success: bool,
    pub output: String,
    pub error: Option<String>,
    pub execution_time_ms: u64,
    pub timestamp_ms: u64,
    pub cache_key: Option<String>,
}

/// Bookkeeping of a context.
#[derive(Debug, Clone, Copy, PartialEq, Eq, Structural)]
pub struct ContextMetadata {
    pub execution_count: u64,
}

/// State carried through one pipeline run.
#[derive(Debug, Clone)]
pub struct ToolContext {
    pub execution_id: ExecutionId,
    /// Results in the order they were recorded; a later result for a tool
    /// replaces an earlier one.
    pub results: Vec<ToolResult>,
    /// Scratch variables as JSON text; a later value for a key replaces an
    /// earlier one.
    pub variables: Vec<(String, String)>,
    pub config: ToolContextConfig,
    pub metadata: ContextMetadata,
}

pub open spec fn result_entries(results: Seq<ToolResult>) -> Seq<(Seq<char>, ToolResult)> {
    results.map_values(|r: ToolResult| (r.tool_name@, r))
}

pub open spec fn variable_entries(vars: Seq<(String, String)>) -> Seq<(Seq<char>, Seq<char>)> {
    vars.map_values(|p: (String, String)| (p.0@, p.1@))
}

impl ToolContext {
    /// Results by tool name.
    pub open spec fn result_map(&self) -> Map<Seq<char>, ToolResult> {
        latest(result_entries(self.results@))
    }

    /// Variables by key.
    pub open spec fn variable_map(&self) -> Map<Seq<char>, Seq<char>> {
        latest(variable_entries(self.variables@))
    }

    /// An empty context for the run `execution_id`, with default settings.
    pub fn new(execution_id: ExecutionId) -> (r: Self)
        ensures
            r.execution_id == execution_id,
            r.results@.len() == 0,
            r.variables@.len() == 0,
            r.result_map() == Map::<Seq<char>, ToolResult>::empty(),
            r.variable_map() == Map::<Seq<char>, Seq<char>>::empty(),
            r.metadata.execution_count == 0,
            r.config == default_context_config(),
    {
        let r = ToolContext {
            execution_id,
            results: Vec::new(),
            variables: Vec::new(),
            config: ToolContextConfig::default(),
            metadata: ContextMetadata { execution_count: 0 },
        };
        assert(result_entries(r.results@) =~= Seq::empty());
        assert(variable_entries(r.variables@) =~= Seq::empty());
        r
    }

    /// Sets a variable; the count of executions is untouched.
    pub fn set_variable(&mut self, key: String, value: String)
        ensures
            final(self).variable_map() == old(self).variable_map().insert(key@, value@),
            final(self).result_map() == old(self).result_map(),
            final(self).metadata == old(self).metadata,
            final(self).config == old(self).config,
            final(self).execution_id == old(self).execution_id,
    {
        let ghost k = key@;
        let ghost v = value@;
        self.variables.push((key, value));
        proof {
            assert(variable_entries(final(self).variables@) =~= variable_entries(
                old(self).variables@,
            ).push((k, v)));
            lemma_latest_push(variable_entries(old(self).variables@), k, v);
        }
    }

    /// The current value of a variable.
    pub fn get_variable(&self, key: &str) -> (r: Option<&String>)
        ensures
            r is None <==> !self.variable_map().contains_key(key@),
            r matches Some(v) ==> v@ == self.variable_map()[key@],
    {
        let ghost entries = variable_entries(self.variables@);
        let mut i: usize = self.variables.len();
        while i > 0
            invariant
                i <= self.variables.len(),
                entries == variable_entries(self.variables@),
                forall|j: int| i <= j < entries.len() ==> (#[trigger] entries[j]).0 != key@,
            decreases i,
        {
            i = i - 1;
            assert(entries[i as int].0 == self.variables@[i as int].0@);
            if str_eq(self.variables[i].0.as_str(), key) {
                proof {
                    lemma_latest_lookup(entries, key@, i as int);
                }
                return Some(&self.variables[i].1);
            }
        }
        proof {
            lemma_latest_lookup(entries, key@, -1);
        }
        None
    }

    /// Records a result under its tool's name and counts the execution.
    pub fn add_result(&mut self, tool_name: String, result: ToolResult)
        requires
            old(self).metadata.execution_count < u64::MAX,
            result.tool_name@ == tool_name@,
        ensures
            final(self).result_map() == old(self).result_map().insert(tool_name@, result),
            final(self).metadata.execution_count == old(self).metadata.execution_count + 1,
            final(self).variable_map() == old(self).variable_map(),
            final(self).config == old(self).config,
            final(self).execution_id == old(self).execution_id,
    {
        let ghost r = result;
        self.results.push(result);
        self.metadata.execution_count = self.metadata.execution_count + 1;
        proof {
            assert(result_entries(final(self).results@) =~= result_entries(old(self).results@).push(
                (tool_name@, r),
            ));
            lemma_latest_push(result_entries(old(self).results@), tool_name@, r);
        }
    }

    /// The latest result recorded for a tool.
    pub fn get_result(&self, tool_name: &str) -> (r: Option<&ToolResult>)
        ensures
            r is None <==> !self.result_map().contains_key(tool_name@),
            r matches Some(v) ==> *v == self.result_map()[tool_name@],
    {
        let ghost entries = result_entries(self.results@);
        let mut i: usize = self.results.len();
        while i > 0
            invariant
                i <= self.results.len(),
                entries == result_entries(self.results@),
                forall|j: int| i <= j < entries.len() ==> (#[trigger] entries[j]).0 != tool_name@,
            decreases i,
        {
            i = i - 1;
            assert(entries[i as int].0 == self.results@[i as int].tool_name@);
            if str_eq(self.results[i].tool_name.as_str(), tool_name) {
                proof {
                    lemma_latest_lookup(entries, tool_name@, i as int);
                }
                return Some(&self.results[i]);
            }
        }
        proof {
            lemma_latest_lookup(entries, tool_name@, -1);
        }
        None
    }
}

} // verus!
