use vstd::prelude::*;

use crate::graph::{is_execution_order, is_schedulable, names_view, DependencyGraph, GraphError};
use crate::keyed::{latest, lemma_latest_lookup, lemma_latest_push};
use crate::text::str_eq;
use crate::tool_orchestration::{
    backoff_delay, BackoffType, ExecutionId, ExecutionIdGenerator, RetryConfig,
    ToolContext, ToolResult,
};

verus! {

/// Most steps a pipeline may have.
pub const MAX_PIPELINE_STEPS: usize = 50;

/// Longest timeout a step may declare: ten minutes, in milliseconds.
pub const MAX_STEP_TIMEOUT_MS: u64 = 600_000;

/// When a step runs, judged on the results recorded so far.
#[derive(Debug, Clone)]
pub enum StepCondition {
    /// The named step has a result, and it succeeded.
    Succeeded(String),
    /// The named step has a result, and it failed.
    Failed(String),
}

/// One step of a pipeline. `arguments` is JSON text handed to the tool as is.
#[derive(Debug, Clone)]
pub struct PipelineStep {
    pub name: String,
    pub tool: String,
    pub arguments: String,
    pub condition: Option<StepCondition>,
    pub retry_config: Option<RetryConfig>,
    pub timeout_ms: Option<u64>,
}

/// A named, ordered list of steps.
#[derive(Debug, Clone)]
pub struct ToolPipeline {
    pub name: String,
    pub description: String,
    pub steps: Vec<PipelineStep>,
    pub parallel_execution: bool,
    pub fail_fast: bool,
    pub created_at_ms: u64,
}

/// The constraint that a pipeline breaks.
#[derive(Debug, Clone, Copy, PartialEq, Eq, Structural)]
pub enum Violation {
    TooManySteps,
    StepTimeout,
    UnknownTool,
}

/// Why a pipeline was refused before any step ran.
#[derive(Debug, Clone)]
pub enum ValidationError {
    /// More than the allowed number of steps: the pipeline is too complex.
    TooComplex { step_count: usize },
    /// A step declares a timeout above ten minutes.
    TimeoutTooLong { step: String, timeout_ms: u64 },
    /// A step names a tool outside the allowlist.
    UnknownTool { step: String, tool: String },
    /// No template has this name.
    UnknownTemplate { name: String },
    /// The steps' dependency graph has a cycle through these names.
    CircularDependency { remaining: Vec<String> },
}

fn clone_names(v: &Vec<String>) -> (r: Vec<String>)
    ensures
        names_view(r@) == names_view(v@),
{
    let mut r: Vec<String> = Vec::new();
    let mut i: usize = 0;
    while i < v.len()
        invariant
            i <= v@.len(),
            names_view(r@) == names_view(v@).take(i as int),
        decreases v@.len() - i,
    {
        let ghost before = r@;
        let x = v[i].clone();
        r.push(x);
        assert(names_view(r@) =~= names_view(before).push(v@[i as int]@));
        assert(names_view(v@).take(i + 1) =~= names_view(v@).take(i as int).push(v@[i as int]@));
        i = i + 1;
    }
    assert(names_view(v@).take(v@.len() as int) =~= names_view(v@));
    r
}

impl ValidationError {
    /// The constraint this error reports, for the errors of pipeline validation.
    pub open spec fn violation(&self) -> Option<Violation> {
        match self {
            ValidationError::TooComplex { .. } => Some(Violation::TooManySteps),
            ValidationError::TimeoutTooLong { .. } => Some(Violation::StepTimeout),
            ValidationError::UnknownTool { .. } => Some(Violation::UnknownTool),
            ValidationError::UnknownTemplate { .. } => None,
            ValidationError::CircularDependency { .. } => None,
        }
    }

    /// Text for an operator, naming the offending step and tool.
    pub fn message(&self) -> (r: String)
        ensures
            self is TooComplex ==> r@ == "Pipeline too complex: at most 50 steps are allowed"@,
            self matches ValidationError::TimeoutTooLong { step, .. } ==> r@
                == "Step timeout above 10 minutes in step "@ + step@,
            self matches ValidationError::UnknownTool { step, tool } ==> r@ == "Unknown tool "@ + tool@
                + " in step "@ + step@,
            self matches ValidationError::UnknownTemplate { name } ==> r@
                == "Unknown pipeline template "@ + name@,
            self matches ValidationError::CircularDependency { remaining } ==> r@
                == "Circular dependency detected among:"@ + crate::graph::listed(
                names_view(remaining@),
                remaining@.len(),
            ),
    {
        match self {
            ValidationError::TooComplex { .. } => String::from_str(
                "Pipeline too complex: at most 50 steps are allowed",
            ),
            ValidationError::TimeoutTooLong { step, .. } => {
                let mut s = String::from_str("Step timeout above 10 minutes in step ");
                s.append(step.as_str());
                s
            },
            ValidationError::UnknownTool { step, tool } => {
                let mut s = String::from_str("Unknown tool ");
                s.append(tool.as_str());
                s.append(" in step ");
                s.append(step.as_str());
                s
            },
            ValidationError::UnknownTemplate { name } => {
                let mut s = String::from_str("Unknown pipeline template ");
                s.append(name.as_str());
                s
            },
            ValidationError::CircularDependency { remaining } => GraphError::CircularDependency {
                remaining: clone_names(remaining),
            }.message(),
        }
    }
}

pub open spec fn timeout_ok(step: PipelineStep) -> bool {
    match step.timeout_ms {
        Some(t) => t <= MAX_STEP_TIMEOUT_MS,
        None => true,
    }
}

pub open spec fn tool_known(step: PipelineStep, known: Seq<Seq<char>>) -> bool {
    known.contains(step.tool@)
}

pub open spec fn step_ok(step: PipelineStep, known: Seq<Seq<char>>) -> bool {
    timeout_ok(step) && tool_known(step, known)
}

pub open spec fn names_of(v: Seq<String>) -> Seq<Seq<char>> {
    v.map_values(|s: String| s@)
}

/// The constraint broken first by the steps from `i` on, checking each step's
/// timeout before its tool.
pub open spec fn first_step_violation(steps: Seq<PipelineStep>, known: Seq<Seq<char>>, i: int) -> Option<
    Violation,
>
    decreases steps.len() - i,
{
    if i < 0 || i >= steps.len() {
        None
    } else if !timeout_ok(steps[i]) {
        Some(Violation::StepTimeout)
    } else if !tool_known(steps[i], known) {
        Some(Violation::UnknownTool)
    } else {
        first_step_violation(steps, known, i + 1)
    }
}

/// The constraint a pipeline breaks first, if any: the step count, then the
/// steps in order.
pub open spec fn pipeline_violation(steps: Seq<PipelineStep>, known: Seq<Seq<char>>) -> Option<Violation> {
    if steps.len() > MAX_PIPELINE_STEPS {
        Some(Violation::TooManySteps)
    } else {
        first_step_violation(steps, known, 0)
    }
}

proof fn lemma_first_step_violation(steps: Seq<PipelineStep>, known: Seq<Seq<char>>, i: int)
    requires
        0 <= i <= steps.len(),
    ensures
        first_step_violation(steps, known, i) is None <==> forall|j: int|
            i <= j < steps.len() ==> step_ok(#[trigger] steps[j], known),
        (forall|j: int| i <= j < steps.len() ==> timeout_ok(#[trigger] steps[j])) ==> first_step_violation(
            steps,
            known,
            i,
        ) != Some(Violation::StepTimeout),
        (forall|j: int| i <= j < steps.len() ==> tool_known(#[trigger] steps[j], known))
            ==> first_step_violation(steps, known, i) != Some(Violation::UnknownTool),
        first_step_violation(steps, known, i) != Some(Violation::TooManySteps),
    decreases steps.len() - i,
{
    if i < steps.len() {
        lemma_first_step_violation(steps, known, i + 1);
    }
}

/// A pipeline within all limits is accepted; one that breaks exactly one of the
/// three constraints (step count, step timeouts, tool allowlist) is refused for
/// that constraint.
pub proof fn lemma_validation_names_the_violation(steps: Seq<PipelineStep>, known: Seq<Seq<char>>)
    ensures
        ({
            let count_ok = steps.len() <= MAX_PIPELINE_STEPS;
            let timeouts_ok = forall|j: int| 0 <= j < steps.len() ==> timeout_ok(#[trigger] steps[j]);
            let tools_ok = forall|j: int| 0 <= j < steps.len() ==> tool_known(#[trigger] steps[j], known);
            &&& count_ok && timeouts_ok && tools_ok ==> pipeline_violation(steps, known) is None
            &&& !count_ok ==> pipeline_violation(steps, known) == Some(Violation::TooManySteps)
            &&& count_ok && !timeouts_ok && tools_ok ==> pipeline_violation(steps, known) == Some(
                Violation::StepTimeout,
            )
            &&& count_ok && timeouts_ok && !tools_ok ==> pipeline_violation(steps, known) == Some(
                Violation::UnknownTool,
            )
        }),
{
    lemma_first_step_violation(steps, known, 0);
    if !(forall|j: int| 0 <= j < steps.len() ==> timeout_ok(#[trigger] steps[j])) {
        let j = choose|j: int| 0 <= j < steps.len() && !timeout_ok(#[trigger] steps[j]);
        assert(!step_ok(steps[j], known));
    }
    if !(forall|j: int| 0 <= j < steps.len() ==> tool_known(#[trigger] steps[j], known)) {
        let j = choose|j: int| 0 <= j < steps.len() && !tool_known(#[trigger] steps[j], known);
        assert(!step_ok(steps[j], known));
    }
}

impl ToolPipeline {
    /// Checks the pipeline against the limits before anything runs: at most 50
    /// steps, no step timeout above ten minutes, every tool in `known_tools`.
    pub fn validate(&self, known_tools: &[String]) -> (r: Result<(), ValidationError>)
        ensures
            r is Ok <==> pipeline_violation(self.steps@, names_of(known_tools@)) is None,
            r matches Err(e) ==> e.violation() == pipeline_violation(self.steps@, names_of(known_tools@))
                && e.violation() is Some,
            r matches Err(ValidationError::TooComplex { step_count }) ==> step_count == self.steps@.len(),
            r matches Err(ValidationError::TimeoutTooLong { step, timeout_ms }) ==> exists|i: int|
                0 <= i < self.steps@.len() && (forall|j: int|
                    0 <= j < i ==> step_ok(#[trigger] self.steps@[j], names_of(known_tools@)))
                    && self.steps@[i].name@ == step@ && self.steps@[i].timeout_ms == Some(timeout_ms)
                    && timeout_ms > MAX_STEP_TIMEOUT_MS,
            r matches Err(ValidationError::UnknownTool { step, tool }) ==> exists|i: int|
                0 <= i < self.steps@.len() && (forall|j: int|
                    0 <= j < i ==> step_ok(#[trigger] self.steps@[j], names_of(known_tools@)))
                    && self.steps@[i].name@ == step@ && self.steps@[i].tool@ == tool@ && !names_of(
                    known_tools@,
                ).contains(tool@),
    {
        let ghost known = names_of(known_tools@);
        if self.steps.len() > MAX_PIPELINE_STEPS {
            return Err(ValidationError::TooComplex { step_count: self.steps.len() });
        }
        let mut i: usize = 0;
        while i < self.steps.len()
            invariant
                i <= self.steps.len(),
                self.steps.len() <= MAX_PIPELINE_STEPS,
                known == names_of(known_tools@),
                forall|j: int| 0 <= j < i ==> step_ok(#[trigger] self.steps@[j], known),
                first_step_violation(self.steps@, known, 0) == first_step_violation(
                    self.steps@,
                    known,
                    i as int,
                ),
            decreases self.steps.len() - i,
        {
            let step = &self.steps[i];
            match step.timeout_ms {
                Some(t) => {
                    if t > MAX_STEP_TIMEOUT_MS {
                        return Err(
                            ValidationError::TimeoutTooLong { step: step.name.clone(), timeout_ms: t },
                        );
                    }
                },
                None => {},
            }
            if !contains_str(known_tools, step.tool.as_str()) {
                return Err(
                    ValidationError::UnknownTool { step: step.name.clone(), tool: step.tool.clone() },
                );
            }
            i = i + 1;
        }
        Ok(())
    }
}

/// `x` occurs among `names`.
pub fn contains_str(names: &[String], x: &str) -> (r: bool)
    ensures
        r == names_of(names@).contains(x@),
{
    let mut i: usize = 0;
    while i < names.len()
        invariant
            i <= names.len(),
            forall|k: int| 0 <= k < i ==> names@[k]@ != x@,
        decreases names.len() - i,
    {
        if str_eq(names[i].as_str(), x) {
            assert(names_of(names@)[i as int] == x@);
            return true;
        }
        i = i + 1;
    }
    proof {
        if names_of(names@).contains(x@) {
            let k = choose|k: int| 0 <= k < names_of(names@).len() && names_of(names@)[k] == x@;
            assert(names@[k]@ == x@);
        }
    }
    false
}

pub open spec fn step_names(steps: Seq<PipelineStep>) -> Seq<Seq<char>> {
    steps.map_values(|st: PipelineStep| st.name@)
}

/// A pipeline is accepted when it breaks no limit and its dependency graph has
/// no cycle, that is, when no step name repeats.
pub open spec fn accepts(p: ToolPipeline, known: Seq<Seq<char>>) -> bool {
    pipeline_violation(p.steps@, known) is None && step_names(p.steps@).no_duplicates()
}

impl ToolPipeline {
    /// The dependency graph of the steps: each step depends on the one before it.
    pub fn dependency_graph(&self) -> (r: DependencyGraph)
        ensures
            self.steps@.len() == 0 ==> r@.len() == 0,
            self.steps@.len() > 0 ==> r@.len() == self.steps@.len() - 1,
            forall|i: int|
                0 < i < self.steps@.len() ==> #[trigger] r@[i - 1] == (
                    self.steps@[i].name@,
                    self.steps@[i - 1].name@,
                ),
    {
        let mut g = DependencyGraph::new();
        let mut i: usize = 1;
        while i < self.steps.len()
            invariant
                1 <= i,
                i <= self.steps@.len() || i == 1,
                g@.len() == i - 1,
                forall|k: int|
                    0 < k < i ==> #[trigger] g@[k - 1] == (self.steps@[k].name@, self.steps@[k - 1].name@),
            decreases self.steps@.len() - i,
        {
            g.add_dependency(self.steps[i].name.clone(), self.steps[i - 1].name.clone());
            i = i + 1;
        }
        g
    }

    /// The order in which the steps run, resolved through their dependency graph.
    pub fn execution_order(&self) -> (r: Result<Vec<String>, GraphError>)
        ensures
            r matches Ok(order) ==> is_execution_order(
                self.dependency_graph_spec(),
                step_names(self.steps@),
                names_view(order@),
            ),
            r is Ok <==> is_schedulable(self.dependency_graph_spec(), step_names(self.steps@)),
            step_names(self.steps@).no_duplicates() ==> r is Ok,
    {
        proof {
            if step_names(self.steps@).no_duplicates() {
                self.lemma_chain_in_step_order();
            }
        }
        let g = self.dependency_graph();
        let mut names: Vec<String> = Vec::new();
        let mut i: usize = 0;
        while i < self.steps.len()
            invariant
                i <= self.steps@.len(),
                names_view(names@) == step_names(self.steps@).take(i as int),
            decreases self.steps@.len() - i,
        {
            let ghost before = names@;
            let name = self.steps[i].name.clone();
            assert(name@ == step_names(self.steps@)[i as int]);
            names.push(name);
            assert(names@ == before.push(name));
            assert(names_view(names@) =~= names_view(before).push(name@));
            assert(step_names(self.steps@).take(i + 1) =~= step_names(self.steps@).take(i as int).push(
                name@,
            ));
            i = i + 1;
        }
        assert(names_view(names@) =~= step_names(self.steps@));
        assert forall|k: int| 0 <= k < g@.len() implies g@[k] == self.dependency_graph_spec()[k] by {
            assert(g@[(k + 1) - 1] == (self.steps@[k + 1].name@, self.steps@[k].name@));
        }
        assert(g@ =~= self.dependency_graph_spec());
        g.get_execution_order(names.as_slice())
    }

    /// A step name that occurs twice closes a cycle of the chain: from its later
    /// occurrence back through the steps between to its earlier one.
    pub proof fn lemma_repeated_name_is_cycle(&self)
        requires
            !step_names(self.steps@).no_duplicates(),
        ensures
            !is_schedulable(self.dependency_graph_spec(), step_names(self.steps@)),
    {
        let names = step_names(self.steps@);
        let edges = self.dependency_graph_spec();
        let (a, b) = choose|a: int, b: int|
            0 <= a < names.len() && 0 <= b < names.len() && a != b && names[a] == names[b];
        let i = if a < b { a } else { b };
        let j = if a < b { b } else { a };
        let len = j - i;
        let path = Seq::new(len as nat, |k: int| names[j - k]);
        assert forall|k: int| 0 <= k < path.len() implies names.contains(#[trigger] path[k]) by {
            assert(names[j - k] == path[k]);
        }
        assert forall|k: int| 0 <= k < path.len() implies crate::graph::has_edge(
            edges,
            #[trigger] path[k],
            path[(k + 1) % path.len() as int],
        ) by {
            if k < len - 1 {
                vstd::arithmetic::div_mod::lemma_small_mod((k + 1) as nat, len as nat);
                let m = j - k - 1;
                assert(edges[m] == (names[m + 1], names[m]));
                assert(edges[m] == (path[k], path[k + 1]));
            } else {
                vstd::arithmetic::div_mod::lemma_mod_self_0(len);
                assert(edges[i] == (names[i + 1], names[i]));
                assert(path[k] == names[i + 1]);
                assert(path[0] == names[j]);
                assert(edges[i] == (path[k], path[0]));
            }
        }
        assert(crate::graph::is_cycle_in(edges, names, path));
        crate::graph::lemma_cycle_not_schedulable(edges, names, path);
    }

    /// With distinct step names, the steps in their own order respect the chain.
    pub proof fn lemma_chain_in_step_order(&self)
        requires
            step_names(self.steps@).no_duplicates(),
        ensures
            is_execution_order(
                self.dependency_graph_spec(),
                step_names(self.steps@),
                step_names(self.steps@),
            ),
            is_schedulable(self.dependency_graph_spec(), step_names(self.steps@)),
    {
        let names = step_names(self.steps@);
        let edges = self.dependency_graph_spec();
        assert forall|e: int, i: int, j: int|
            #![trigger edges[e], names[i], names[j]]
            0 <= e < edges.len() && 0 <= i < names.len() && 0 <= j < names.len() && names[i]
                == edges[e].0 && names[j] == edges[e].1 implies j < i by {
            assert(names[e + 1] == edges[e].0);
            assert(names[e] == edges[e].1);
        }
        assert(is_execution_order(edges, names, names));
    }

    /// The edges of the dependency graph: each step after the one before it.
    pub open spec fn dependency_graph_spec(&self) -> Seq<(Seq<char>, Seq<char>)> {
        Seq::new(
            if self.steps@.len() == 0 {
                0
            } else {
                (self.steps@.len() - 1) as nat
            },
            |i: int| (self.steps@[i + 1].name@, self.steps@[i].name@),
        )
    }
}

/// A step with a name, a tool, empty arguments, no retry and no timeout.
fn simple_step(name: &str, tool: &str, condition: Option<StepCondition>) -> (r: PipelineStep)
    ensures
        r.name@ == name@,
        r.tool@ == tool@,
        r.condition == condition,
        r.retry_config is None,
        r.timeout_ms is None,
{
    PipelineStep {
        name: String::from_str(name),
        tool: String::from_str(tool),
        arguments: String::from_str("{}"),
        condition,
        retry_config: None,
        timeout_ms: None,
    }
}

/// The observe, experiment, replay chain: each step named after its tool,
/// each later step run only once the one before it succeeded.
pub open spec fn is_observe_experiment_replay(r: ToolPipeline) -> bool {
    &&& r.name@ == "observe_experiment_replay"@
    &&& r.steps@.len() == 3
    &&& r.steps@[0].name@ == "observe"@ && r.steps@[0].tool@ == "observe"@
    &&& r.steps@[1].name@ == "experiment"@ && r.steps@[1].tool@ == "experiment"@
    &&& r.steps@[2].name@ == "replay"@ && r.steps@[2].tool@ == "replay"@
    &&& r.steps@[0].condition is None
    &&& r.steps@[1].condition matches Some(StepCondition::Succeeded(n)) && n@ == "observe"@
    &&& r.steps@[2].condition matches Some(StepCondition::Succeeded(n)) && n@ == "experiment"@
    &&& r.fail_fast && !r.parallel_execution
}

/// The stress, anomaly chain: both steps always run.
pub open spec fn is_debug_performance(r: ToolPipeline) -> bool {
    &&& r.name@ == "debug_performance"@
    &&& r.steps@.len() == 2
    &&& r.steps@[0].name@ == "stress"@ && r.steps@[0].tool@ == "stress"@
    &&& r.steps@[1].name@ == "anomaly"@ && r.steps@[1].tool@ == "anomaly"@
    &&& r.steps@[0].condition is None
    &&& r.steps@[1].condition is None
    &&& !r.fail_fast && !r.parallel_execution
}

/// Pre-built pipelines.
pub struct WorkflowDSL;

impl WorkflowDSL {
    /// Observe the world, experiment once observation succeeded, then replay
    /// once the experiment succeeded.
    pub fn observe_experiment_replay() -> (r: ToolPipeline)
        ensures
            is_observe_experiment_replay(r),
    {
        let mut steps: Vec<PipelineStep> = Vec::new();
        steps.push(simple_step("observe", "observe", None));
        steps.push(
            simple_step(
                "experiment",
                "experiment",
                Some(StepCondition::Succeeded(String::from_str("observe"))),
            ),
        );
        steps.push(
            simple_step(
                "replay",
                "replay",
                Some(StepCondition::Succeeded(String::from_str("experiment"))),
            ),
        );
        ToolPipeline {
            name: String::from_str("observe_experiment_replay"),
            description: String::from_str("Observe, experiment on what was seen, replay the result"),
            steps,
            parallel_execution: false,
            fail_fast: true,
            created_at_ms: 0,
        }
    }

    /// Stress the world, then look for anomalies whatever the stress run gave.
    pub fn debug_performance() -> (r: ToolPipeline)
        ensures
            is_debug_performance(r),
    {
        let mut steps: Vec<PipelineStep> = Vec::new();
        steps.push(simple_step("stress", "stress", None));
        steps.push(simple_step("anomaly", "anomaly", None));
        ToolPipeline {
            name: String::from_str("debug_performance"),
            description: String::from_str("Stress test, then detect anomalies"),
            steps,
            parallel_execution: false,
            fail_fast: false,
            created_at_ms: 0,
        }
    }
}

/// Whether a condition holds on the results recorded in `ctx`.
pub open spec fn condition_holds(cond: Option<StepCondition>, ctx: ToolContext) -> bool {
    match cond {
        None => true,
        Some(StepCondition::Succeeded(n)) => ctx.result_map().contains_key(n@)
            && ctx.result_map()[n@].success,
        Some(StepCondition::Failed(n)) => ctx.result_map().contains_key(n@)
            && !ctx.result_map()[n@].success,
    }
}

/// Evaluates a step's condition against the results recorded so far.
pub fn evaluate_condition(cond: &Option<StepCondition>, ctx: &ToolContext) -> (r: bool)
    ensures
        r == condition_holds(*cond, *ctx),
{
    match cond {
        None => true,
        Some(StepCondition::Succeeded(n)) => match ctx.get_result(n.as_str()) {
            Some(res) => res.success,
            None => false,
        },
        Some(StepCondition::Failed(n)) => match ctx.get_result(n.as_str()) {
            Some(res) => !res.success,
            None => false,
        },
    }
}

/// The attempts a step may make: those of its retry policy, or one without it.
pub open spec fn attempt_limit(retry: Option<RetryConfig>) -> int {
    match retry {
        Some(c) => if c.max_attempts == 0 {
            1
        } else {
            c.max_attempts as int
        },
        None => 1,
    }
}

/// What follows an attempt of a step.
#[derive(Debug, Clone, Copy, PartialEq, Eq, Structural)]
pub enum AttemptDecision {
    /// The step is over, with this outcome.
    Done { success: bool },
    /// Wait this long, then make attempt `next_attempt`.
    RetryAfter { delay_ms: u64, next_attempt: u32 },
}

/// Decides what follows attempt `attempt` (counted from 1) of a step.
pub fn after_attempt(retry: &Option<RetryConfig>, attempt: u32, success: bool) -> (r: AttemptDecision)
    requires
        attempt >= 1,
    ensures
        success ==> r == (AttemptDecision::Done { success: true }),
        !success && attempt >= attempt_limit(*retry) ==> r == (AttemptDecision::Done {
            success: false,
        }),
        !success && attempt < attempt_limit(*retry) ==> retry is Some && (r matches
            AttemptDecision::RetryAfter { delay_ms, next_attempt } && delay_ms == backoff_delay(
            retry.unwrap(),
            attempt as nat,
        ) && next_attempt == attempt + 1),
{
    if success {
        return AttemptDecision::Done { success: true };
    }
    match retry {
        Some(c) => {
            if attempt < c.max_attempts {
                AttemptDecision::RetryAfter { delay_ms: c.delay_after(attempt), next_attempt: attempt + 1 }
            } else {
                AttemptDecision::Done { success: false }
            }
        },
        None => AttemptDecision::Done { success: false },
    }
}

/// How a step's attempts went.
#[derive(Debug, Clone)]
pub struct AttemptReport {
    pub success: bool,
    pub attempts: u32,
    /// The waits made between attempts, in order, in milliseconds.
    pub waits_ms: Vec<u64>,
}

/// Runs the retry policy of a step over the outcomes of its attempts, one
/// outcome per attempt in order; outcomes past the last attempt are not used.
pub fn run_attempts(retry: &Option<RetryConfig>, outcomes: &[bool]) -> (r: AttemptReport)
    requires
        outcomes@.len() >= attempt_limit(*retry),
    ensures
        1 <= r.attempts <= attempt_limit(*retry),
        r.success == outcomes@[r.attempts - 1],
        forall|k: int| 0 <= k < r.attempts - 1 ==> !outcomes@[k],
        !r.success ==> r.attempts == attempt_limit(*retry),
        r.waits_ms@.len() == r.attempts - 1,
        forall|k: int|
            0 <= k < r.waits_ms@.len() ==> r.waits_ms@[k] == backoff_delay(retry.unwrap(), (k + 1) as nat),
{
    let mut waits: Vec<u64> = Vec::new();
    let mut attempt: u32 = 1;
    loop
        invariant
            1 <= attempt <= attempt_limit(*retry),
            outcomes@.len() >= attempt_limit(*retry),
            forall|k: int| 0 <= k < attempt - 1 ==> !outcomes@[k],
            waits@.len() == attempt - 1,
            forall|k: int|
                0 <= k < waits@.len() ==> waits@[k] == backoff_delay(retry.unwrap(), (k + 1) as nat),
        decreases attempt_limit(*retry) - attempt,
    {
        let ok = outcomes[(attempt - 1) as usize];
        match after_attempt(retry, attempt, ok) {
            AttemptDecision::Done { success } => {
                return AttemptReport { success, attempts: attempt, waits_ms: waits };
            },
            AttemptDecision::RetryAfter { delay_ms, next_attempt } => {
                waits.push(delay_ms);
                attempt = next_attempt;
            },
        }
    }
}

/// Retries under a policy stop at its attempt limit, and under `Exponential`
/// backoff the waits between them never shrink and never pass the maximum delay.
pub proof fn lemma_retry_schedule(cfg: RetryConfig, a: nat, b: nat)
    requires
        1 <= a <= b,
    ensures
        backoff_delay(cfg, b) <= cfg.max_delay_ms,
        cfg.backoff_type == BackoffType::Exponential ==> backoff_delay(cfg, a) <= backoff_delay(cfg, b),
    decreases b - a,
{
    crate::tool_orchestration::lemma_backoff_monotone_bounded(cfg, b);
    if a < b {
        lemma_retry_schedule(cfg, a, (b - 1) as nat);
        crate::tool_orchestration::lemma_backoff_monotone_bounded(cfg, (b - 1) as nat);
    }
}

/// Where a pipeline run stands.
#[derive(Debug, Clone, Copy, PartialEq, Eq, Structural)]
pub enum RunStatus {
    Executing,
    /// Every eligible step ran or was skipped.
    Completed,
    /// A step failed in a fail-fast pipeline.
    Aborted,
}

/// What the driver of a run does next.
#[derive(Debug, Clone, Copy, PartialEq, Eq, Structural)]
pub enum StepAction {
    /// Run the step at this index.
    Run { step: usize },
    /// The run is over.
    Finished,
}

/// The decisions of one pipeline run over its steps, in order. The caller runs
/// each step that `next_step` names and hands the result to `finish_step`.
#[derive(Debug, Clone)]
pub struct PipelineRun {
    pub position: usize,
    pub failed_steps: Vec<String>,
    pub status: RunStatus,
}

impl PipelineRun {
    /// Validates the pipeline and starts a run of it; a refused pipeline runs no
    /// step.
    pub fn start(pipeline: &ToolPipeline, known_tools: &[String]) -> (r: Result<
        PipelineRun,
        ValidationError,
    >)
        ensures
            r is Ok <==> accepts(*pipeline, names_of(known_tools@)),
            r matches Err(e) ==> e.violation() == pipeline_violation(
                pipeline.steps@,
                names_of(known_tools@),
            ),
            r matches Err(e) ==> (e is CircularDependency <==> pipeline_violation(
                pipeline.steps@,
                names_of(known_tools@),
            ) is None),
            r is Ok ==> is_execution_order(
                pipeline.dependency_graph_spec(),
                step_names(pipeline.steps@),
                step_names(pipeline.steps@),
            ),
            r matches Ok(run) ==> run.position == 0 && run.status == RunStatus::Executing
                && run.failed_steps@.len() == 0,
    {
        match pipeline.validate(known_tools) {
            Ok(()) => {},
            Err(e) => {
                return Err(e);
            },
        }
        proof {
            if !step_names(pipeline.steps@).no_duplicates() {
                pipeline.lemma_repeated_name_is_cycle();
            }
        }
        match pipeline.execution_order() {
            Ok(_) => {
                proof {
                    pipeline.lemma_chain_in_step_order();
                }
                Ok(PipelineRun { position: 0, failed_steps: Vec::new(), status: RunStatus::Executing })
            },
            Err(GraphError::CircularDependency { remaining }) => Err(
                ValidationError::CircularDependency { remaining },
            ),
        }
    }

    /// Passes over the steps whose condition does not hold on `ctx`, and names
    /// the next step to run, or ends the run.
    pub fn next_step(&mut self, pipeline: &ToolPipeline, ctx: &ToolContext) -> (r: StepAction)
        requires
            old(self).position <= pipeline.steps@.len(),
        ensures
            final(self).failed_steps == old(self).failed_steps,
            final(self).position <= pipeline.steps@.len(),
            final(self).position >= old(self).position,
            old(self).status != RunStatus::Executing ==> r == StepAction::Finished && *final(self)
                == *old(self),
            old(self).status == RunStatus::Executing ==> forall|j: int|
                old(self).position <= j < final(self).position ==> !condition_holds(
                    #[trigger] pipeline.steps@[j].condition,
                    *ctx,
                ),
            old(self).status == RunStatus::Executing ==> (r matches StepAction::Run { step } ==> step
                == final(self).position && step < pipeline.steps@.len() && condition_holds(
                pipeline.steps@[step as int].condition,
                *ctx,
            ) && final(self).status == RunStatus::Executing),
            old(self).status == RunStatus::Executing && r is Finished ==> final(self).position
                == pipeline.steps@.len() && final(self).status == RunStatus::Completed,
    {
        if self.status != RunStatus::Executing {
            return StepAction::Finished;
        }
        let ghost start = self.position;
        while self.position < pipeline.steps.len()
            invariant
                start <= self.position <= pipeline.steps@.len(),
                self.status == RunStatus::Executing,
                self.failed_steps == old(self).failed_steps,
                old(self).status == RunStatus::Executing,
                start == old(self).position,
                forall|j: int|
                    start <= j < self.position ==> !condition_holds(
                        #[trigger] pipeline.steps@[j].condition,
                        *ctx,
                    ),
            decreases pipeline.steps@.len() - self.position,
        {
            if evaluate_condition(&pipeline.steps[self.position].condition, ctx) {
                return StepAction::Run { step: self.position };
            }
            self.position = self.position + 1;
        }
        self.status = RunStatus::Completed;
        StepAction::Finished
    }

    /// Records the result of the step at the current position and moves past it;
    /// a failure ends a fail-fast run.
    pub fn finish_step(&mut self, pipeline: &ToolPipeline, ctx: &mut ToolContext, result: ToolResult)
        requires
            old(self).status == RunStatus::Executing,
            old(self).position < pipeline.steps@.len(),
            result.tool_name@ == pipeline.steps@[old(self).position as int].name@,
            old(ctx).metadata.execution_count < u64::MAX,
        ensures
            final(ctx).result_map() == old(ctx).result_map().insert(
                pipeline.steps@[old(self).position as int].name@,
                result,
            ),
            final(ctx).metadata.execution_count == old(ctx).metadata.execution_count + 1,
            final(ctx).variable_map() == old(ctx).variable_map(),
            final(self).position == old(self).position + 1,
            result.success ==> final(self).status == RunStatus::Executing && final(self).failed_steps
                == old(self).failed_steps,
            !result.success ==> names_of(final(self).failed_steps@) == names_of(
                old(self).failed_steps@,
            ).push(pipeline.steps@[old(self).position as int].name@),
            !result.success ==> final(self).status == (if pipeline.fail_fast {
                RunStatus::Aborted
            } else {
                RunStatus::Executing
            }),
    {
        let success = result.success;
        let pos = self.position;
        let step_count = pipeline.steps.len();
        assert(pos < step_count);
        let step = &pipeline.steps[pos];
        ctx.add_result(step.name.clone(), result);
        if !success {
            let ghost before = self.failed_steps@;
            self.failed_steps.push(step.name.clone());
            assert(names_of(self.failed_steps@) =~= names_of(before).push(step.name@));
            if pipeline.fail_fast {
                self.status = RunStatus::Aborted;
            }
        }
        self.position = pos + 1;
    }
}

/// The result a step may reuse instead of running: with caching on, the one
/// recorded under the step's name.
pub fn cached_result<'a>(step: &PipelineStep, ctx: &'a ToolContext) -> (r: Option<&'a ToolResult>)
    ensures
        r is Some <==> ctx.config.cache_results && ctx.result_map().contains_key(step.name@),
        r matches Some(v) ==> *v == ctx.result_map()[step.name@],
{
    if ctx.config.cache_results {
        ctx.get_result(step.name.as_str())
    } else {
        None
    }
}

/// A pipeline as a caller submits it: a template's name, or a whole pipeline.
#[derive(Debug, Clone)]
pub enum PipelineSubmission {
    Template(String),
    Custom(ToolPipeline),
}

/// Failures of the orchestrator outside validation.
#[derive(Debug, Clone)]
pub enum OrchestrationError {
    /// No executor is registered under this name.
    UnknownTool { name: String },
}

/// The registered tools, the pipeline templates, and the source of execution
/// identifiers.
#[derive(Debug)]
pub struct ToolOrchestrator {
    tools: Vec<String>,
    templates: Vec<(String, ToolPipeline)>,
    ids: ExecutionIdGenerator,
}

pub open spec fn template_entries(t: Seq<(String, ToolPipeline)>) -> Seq<(Seq<char>, ToolPipeline)> {
    t.map_values(|e: (String, ToolPipeline)| (e.0@, e.1))
}

impl ToolOrchestrator {
    /// Names of the registered tools.
    pub closed spec fn tool_set(&self) -> Set<Seq<char>> {
        names_of(self.tools@).to_set()
    }

    /// Names of the registered tools, in order of registration.
    pub closed spec fn tool_list(&self) -> Seq<Seq<char>> {
        names_of(self.tools@)
    }

    /// Templates by name; a later registration replaces an earlier one.
    pub closed spec fn template_map(&self) -> Map<Seq<char>, ToolPipeline> {
        latest(template_entries(self.templates@))
    }

    /// Execution identifiers handed out so far.
    pub closed spec fn issued_ids(&self) -> Set<u64> {
        self.ids.issued()
    }

    /// How many execution identifiers were handed out.
    pub closed spec fn id_count(&self) -> nat {
        self.ids.count()
    }

    /// Identifiers can still be minted.
    pub open spec fn ids_left(&self) -> bool {
        self.id_count() < u64::MAX
    }

    pub fn new() -> (r: Self)
        ensures
            r.tool_set() == Set::<Seq<char>>::empty(),
            r.template_map() == Map::<Seq<char>, ToolPipeline>::empty(),
            r.issued_ids() == Set::<u64>::empty(),
            r.id_count() == 0,
    {
        let r = ToolOrchestrator { tools: Vec::new(), templates: Vec::new(), ids: ExecutionIdGenerator::new() };
        assert(names_of(r.tools@) =~= Seq::empty());
        assert(names_of(r.tools@).to_set() =~= Set::empty());
        assert(template_entries(r.templates@) =~= Seq::empty());
        r
    }

    /// Registers a tool; registering a name twice changes nothing.
    pub fn register_tool(&mut self, name: String)
        ensures
            final(self).tool_set() == old(self).tool_set().insert(name@),
            final(self).template_map() == old(self).template_map(),
            final(self).issued_ids() == old(self).issued_ids(),
            final(self).id_count() == old(self).id_count(),
    {
        if !contains_str(self.tools.as_slice(), name.as_str()) {
            let ghost before = self.tools@;
            let ghost n = name@;
            self.tools.push(name);
            assert(names_of(self.tools@) =~= names_of(before).push(n));
            proof {
                names_of(before).lemma_push_to_set_commute(n);
            }
        } else {
            assert(old(self).tool_set().insert(name@) =~= old(self).tool_set());
        }
    }

    /// The registered tool names, usable as a validation allowlist.
    pub fn known_tools(&self) -> (r: &[String])
        ensures
            names_of(r@).to_set() == self.tool_set(),
            names_of(r@) == self.tool_list(),
    {
        self.tools.as_slice()
    }

    /// Whether a tool is registered under `name`.
    pub fn is_registered(&self, name: &str) -> (r: bool)
        ensures
            r == self.tool_set().contains(name@),
    {
        contains_str(self.tools.as_slice(), name)
    }

    /// Registers a template under its own name.
    pub fn register_pipeline_template(&mut self, pipeline: ToolPipeline)
        ensures
            final(self).template_map() == old(self).template_map().insert(pipeline.name@, pipeline),
            final(self).tool_set() == old(self).tool_set(),
            final(self).issued_ids() == old(self).issued_ids(),
            final(self).id_count() == old(self).id_count(),
    {
        let ghost p = pipeline;
        let name = pipeline.name.clone();
        let ghost before = self.templates@;
        self.templates.push((name, pipeline));
        proof {
            assert(template_entries(self.templates@) =~= template_entries(before).push((p.name@, p)));
            lemma_latest_push(template_entries(before), p.name@, p);
        }
    }

    /// The template registered under `name`.
    pub fn get_template(&self, name: &str) -> (r: Result<&ToolPipeline, ValidationError>)
        ensures
            r is Ok <==> self.template_map().contains_key(name@),
            r matches Ok(p) ==> *p == self.template_map()[name@],
            r matches Err(e) ==> e matches ValidationError::UnknownTemplate { name: n } && n@ == name@,
    {
        let ghost entries = template_entries(self.templates@);
        let mut i: usize = self.templates.len();
        while i > 0
            invariant
                i <= self.templates.len(),
                entries == template_entries(self.templates@),
                forall|j: int| i <= j < entries.len() ==> (#[trigger] entries[j]).0 != name@,
            decreases i,
        {
            i = i - 1;
            assert(entries[i as int].0 == self.templates@[i as int].0@);
            if str_eq(self.templates[i].0.as_str(), name) {
                proof {
                    lemma_latest_lookup(entries, name@, i as int);
                }
                return Ok(&self.templates[i].1);
            }
        }
        proof {
            lemma_latest_lookup(entries, name@, -1);
        }
        Err(ValidationError::UnknownTemplate { name: String::from_str(name) })
    }

    /// The pipeline a submission names, checked against the registered tools,
    /// and a run of it that has not started any step.
    pub fn resolve_submission<'a>(&'a self, submission: &'a PipelineSubmission) -> (r: Result<
        (&'a ToolPipeline, PipelineRun),
        ValidationError,
    >)
        ensures
            submission matches PipelineSubmission::Template(name) ==> (!self.template_map().contains_key(
                name@,
            ) ==> (r matches Err(ValidationError::UnknownTemplate { name: n }) && n@ == name@)),
            submission matches PipelineSubmission::Template(name) ==> (self.template_map().contains_key(
                name@,
            ) ==> (r is Ok <==> accepts(self.template_map()[name@], self.tool_list()))),
            submission matches PipelineSubmission::Template(name) ==> (self.template_map().contains_key(
                name@,
            ) ==> (r matches Err(e) ==> e.violation() == pipeline_violation(
                self.template_map()[name@].steps@,
                self.tool_list(),
            ))),
            submission matches PipelineSubmission::Template(name) ==> (r matches Ok((p, _)) ==> *p
                == self.template_map()[name@]),
            submission matches PipelineSubmission::Custom(p) ==> (r is Ok <==> accepts(*p, self.tool_list())),
            submission matches PipelineSubmission::Custom(p) ==> (r matches Err(e) ==> e.violation()
                == pipeline_violation(p.steps@, self.tool_list())),
            submission matches PipelineSubmission::Custom(p) ==> (r matches Ok((q, _)) ==> *q == *p),
            r matches Ok((p, run)) ==> run.position == 0 && run.status == RunStatus::Executing
                && run.failed_steps@.len() == 0 && is_execution_order(
                p.dependency_graph_spec(),
                step_names(p.steps@),
                step_names(p.steps@),
            ),
    {
        let pipeline = match submission {
            PipelineSubmission::Template(name) => match self.get_template(name.as_str()) {
                Ok(p) => p,
                Err(e) => {
                    return Err(e);
                },
            },
            PipelineSubmission::Custom(p) => p,
        };
        match PipelineRun::start(pipeline, self.tools.as_slice()) {
            Ok(run) => Ok((pipeline, run)),
            Err(e) => Err(e),
        }
    }

    /// Whether another execution identifier can be minted.
    pub fn has_id_capacity(&self) -> (r: bool)
        ensures
            r == self.ids_left(),
    {
        self.ids.has_capacity()
    }

    /// Mints an execution identifier, for a pipeline run's context.
    pub fn new_execution_id(&mut self) -> (r: ExecutionId)
        requires
            old(self).ids_left(),
        ensures
            !old(self).issued_ids().contains(r.value),
            final(self).issued_ids() == old(self).issued_ids().insert(r.value),
            final(self).id_count() == old(self).id_count() + 1,
            final(self).tool_set() == old(self).tool_set(),
            final(self).tool_list() == old(self).tool_list(),
            final(self).template_map() == old(self).template_map(),
    {
        self.ids.mint()
    }

    /// Mints the identifier of an invocation of `name`; an unknown tool is
    /// refused before anything runs.
    pub fn begin_tool(&mut self, name: &str) -> (r: Result<ExecutionId, OrchestrationError>)
        requires
            old(self).ids_left(),
        ensures
            r is Ok <==> old(self).tool_set().contains(name@),
            r matches Err(OrchestrationError::UnknownTool { name: n }) ==> n@ == name@,
            r matches Ok(id) ==> !old(self).issued_ids().contains(id.value) && final(self).issued_ids()
                == old(self).issued_ids().insert(id.value),
            r is Ok ==> final(self).id_count() == old(self).id_count() + 1,
            r is Err ==> final(self).issued_ids() == old(self).issued_ids() && final(self).id_count()
                == old(self).id_count(),
            final(self).tool_set() == old(self).tool_set(),
            final(self).tool_list() == old(self).tool_list(),
            final(self).template_map() == old(self).template_map(),
    {
        if !self.is_registered(name) {
            return Err(OrchestrationError::UnknownTool { name: String::from_str(name) });
        }
        Ok(self.ids.mint())
    }
}

/// The result of one invocation, from what the tool returned: its output on
/// success, its error on failure.
pub fn tool_result_from_outcome(
    tool_name: String,
    execution_id: ExecutionId,
    outcome: &Result<String, String>,
    execution_time_ms: u64,
    timestamp_ms: u64,
    cache_key: Option<String>,
) -> (r: ToolResult)
    ensures
        r.tool_name == tool_name,
        r.execution_id == execution_id,
        r.success == outcome is Ok,
        outcome matches Ok(o) ==> r.output == *o && r.error is None,
        outcome matches Err(e) ==> r.error == Some(*e) && r.output@.len() == 0,
        r.execution_time_ms == execution_time_ms,
        r.timestamp_ms == timestamp_ms,
        r.cache_key == cache_key,
{
    let (success, output, error) = match outcome {
        Ok(o) => (true, o.clone(), None),
        Err(e) => (false, String::new(), Some(e.clone())),
    };
    ToolResult {
        tool_name,
        execution_id,
        success,
        output,
        error,
        execution_time_ms,
        timestamp_ms,
        cache_key,
    }
}

/// Wraps what a tool returned into a result, records it in `ctx`, and hands
/// back the tool's own output.
pub fn record_tool_outcome(
    ctx: &mut ToolContext,
    tool_name: String,
    execution_id: ExecutionId,
    outcome: Result<String, String>,
    execution_time_ms: u64,
    timestamp_ms: u64,
) -> (r: Result<String, String>)
    requires
        old(ctx).metadata.execution_count < u64::MAX,
    ensures
        r == outcome,
        final(ctx).metadata.execution_count == old(ctx).metadata.execution_count + 1,
        final(ctx).result_map().dom() == old(ctx).result_map().dom().insert(tool_name@),
        final(ctx).result_map()[tool_name@].success == outcome is Ok,
        final(ctx).result_map()[tool_name@].execution_id == execution_id,
        outcome matches Ok(o) ==> final(ctx).result_map()[tool_name@].output == o
            && final(ctx).result_map()[tool_name@].error is None,
        outcome matches Err(e) ==> final(ctx).result_map()[tool_name@].error == Some(e),
        final(ctx).result_map()[tool_name@].execution_time_ms == execution_time_ms,
        forall|k: Seq<char>|
            k != tool_name@ && #[trigger] old(ctx).result_map().contains_key(k)
                ==> final(ctx).result_map()[k] == old(ctx).result_map()[k],
        final(ctx).variable_map() == old(ctx).variable_map(),
{
    let result = tool_result_from_outcome(
        tool_name.clone(),
        execution_id,
        &outcome,
        execution_time_ms,
        timestamp_ms,
        None,
    );
    ctx.add_result(tool_name, result);
    outcome
}

/// The tools the bridge offers.
pub open spec fn default_tool_names() -> Seq<Seq<char>> {
    seq!["observe"@, "experiment"@, "hypothesis"@, "stress"@, "replay"@, "anomaly"@]
}

/// An orchestrator with the bridge's tools and its two pipeline templates.
pub fn create_orchestrator() -> (r: ToolOrchestrator)
    ensures
        r.tool_set() == default_tool_names().to_set(),
        r.template_map().dom() == set!["observe_experiment_replay"@, "debug_performance"@],
        is_observe_experiment_replay(r.template_map()["observe_experiment_replay"@]),
        is_debug_performance(r.template_map()["debug_performance"@]),
        r.issued_ids() == Set::<u64>::empty(),
        r.id_count() == 0,
{
    let mut o = ToolOrchestrator::new();
    o.register_tool(String::from_str("observe"));
    o.register_tool(String::from_str("experiment"));
    o.register_tool(String::from_str("hypothesis"));
    o.register_tool(String::from_str("stress"));
    o.register_tool(String::from_str("replay"));
    o.register_tool(String::from_str("anomaly"));
    o.register_pipeline_template(WorkflowDSL::observe_experiment_replay());
    o.register_pipeline_template(WorkflowDSL::debug_performance());
    proof {
        reveal_strlit("observe_experiment_replay");
        reveal_strlit("debug_performance");
        assert("observe_experiment_replay"@ != "debug_performance"@) by {
            assert("observe_experiment_replay"@[0] != "debug_performance"@[0]);
        }
        let d = o.template_map().dom();
        assert(d =~= set!["observe_experiment_replay"@, "debug_performance"@]);
        assert(o.tool_set() =~= default_tool_names().to_set()) by {
            assert forall|x: Seq<char>| o.tool_set().contains(x) <==> default_tool_names().to_set().contains(x) by {
                if default_tool_names().contains(x) {
                    let k = choose|k: int| 0 <= k < default_tool_names().len() && default_tool_names()[k] == x;
                    assert(0 <= k < 6);
                }
                if o.tool_set().contains(x) {
                    assert(default_tool_names()[0] == "observe"@);
                    assert(default_tool_names()[1] == "experiment"@);
                    assert(default_tool_names()[2] == "hypothesis"@);
                    assert(default_tool_names()[3] == "stress"@);
                    assert(default_tool_names()[4] == "replay"@);
                    assert(default_tool_names()[5] == "anomaly"@);
                }
            }
        }
    }
    o
}

} // verus!
