use bevy_debugger_mcp::pipeline::{
    record_tool_outcome, create_orchestrator, PipelineSubmission, after_attempt, run_attempts, AttemptDecision, PipelineRun, PipelineStep, RunStatus,
    StepAction, StepCondition, ToolOrchestrator, ToolPipeline, ValidationError, WorkflowDSL,
};
use bevy_debugger_mcp::tool_orchestration::{
    BackoffType, DependencyGraph, ExecutionId, ExecutionIdGenerator, RetryConfig, ToolContext,
    ToolContextConfig, ToolResult,
};

fn step(name: &str, tool: &str) -> PipelineStep {
    PipelineStep {
        name: name.to_string(),
        tool: tool.to_string(),
        arguments: "{}".to_string(),
        condition: None,
        retry_config: None,
        timeout_ms: None,
    }
}

fn pipeline(name: &str, steps: Vec<PipelineStep>, fail_fast: bool) -> ToolPipeline {
    ToolPipeline {
        name: name.to_string(),
        description: String::new(),
        steps,
        parallel_execution: false,
        fail_fast,
        created_at_ms: 0,
    }
}

fn result(tool: &str, id: ExecutionId, success: bool) -> ToolResult {
    ToolResult {
        tool_name: tool.to_string(),
        execution_id: id,
        success,
        output: "{}".to_string(),
        error: if success { None } else { Some("failed".to_string()) },
        execution_time_ms: 1,
        timestamp_ms: 0,
        cache_key: None,
    }
}

fn known() -> Vec<String> {
    vec!["observe".to_string(), "experiment".to_string(), "replay".to_string()]
}

#[test]
fn test_tool_context_basic_functionality() {
    let mut ids = ExecutionIdGenerator::new();
    let mut context = ToolContext::new(ids.mint());

    assert_eq!(context.metadata.execution_count, 0);
    assert!(context.results.is_empty());
    assert!(context.variables.is_empty());

    context.set_variable("test_key".to_string(), "\"test_value\"".to_string());
    assert_eq!(
        context.get_variable("test_key"),
        Some(&"\"test_value\"".to_string())
    );
    assert_eq!(context.metadata.execution_count, 0);

    let tool_result = ToolResult {
        tool_name: "test_tool".to_string(),
        execution_id: ids.mint(),
        success: true,
        output: "{\"data\":\"test\"}".to_string(),
        error: None,
        execution_time_ms: 100,
        timestamp_ms: 0,
        cache_key: Some("cache_123".to_string()),
    };

    context.add_result("test_tool".to_string(), tool_result);
    assert_eq!(context.metadata.execution_count, 1);
    assert!(context.get_result("test_tool").is_some());
}

#[test]
fn later_results_and_variables_replace_earlier_ones() {
    let mut ids = ExecutionIdGenerator::new();
    let mut context = ToolContext::new(ids.mint());
    context.set_variable("k".to_string(), "1".to_string());
    context.set_variable("k".to_string(), "2".to_string());
    assert_eq!(context.get_variable("k"), Some(&"2".to_string()));
    assert_eq!(context.get_variable("missing"), None);
    context.add_result("A".to_string(), result("A", ids.mint(), false));
    context.add_result("A".to_string(), result("A", ids.mint(), true));
    assert!(context.get_result("A").unwrap().success);
    assert_eq!(context.metadata.execution_count, 2);
}

#[test]
fn test_workflow_dsl_pipelines() {
    let observe_pipeline = WorkflowDSL::observe_experiment_replay();
    assert_eq!(observe_pipeline.name, "observe_experiment_replay");
    assert_eq!(observe_pipeline.steps.len(), 3);

    assert_eq!(observe_pipeline.steps[0].tool, "observe");
    assert_eq!(observe_pipeline.steps[1].tool, "experiment");
    assert_eq!(observe_pipeline.steps[2].tool, "replay");

    assert!(observe_pipeline.steps[0].condition.is_none());
    assert!(observe_pipeline.steps[1].condition.is_some());
    assert!(observe_pipeline.steps[2].condition.is_some());

    let debug_pipeline = WorkflowDSL::debug_performance();
    assert_eq!(debug_pipeline.name, "debug_performance");
    assert_eq!(debug_pipeline.steps.len(), 2);
    assert_eq!(debug_pipeline.steps[0].tool, "stress");
    assert_eq!(debug_pipeline.steps[1].tool, "anomaly");
}

#[test]
fn test_execution_id_uniqueness() {
    let mut ids = ExecutionIdGenerator::new();
    let id1 = ids.mint();
    let id2 = ids.mint();
    let id3 = ids.mint();

    assert_ne!(id1, id2);
    assert_ne!(id2, id3);
    assert_ne!(id1, id3);

    let str1 = id1.as_text();
    let str2 = id2.as_text();
    let str3 = id3.as_text();

    assert_ne!(str1, str2);
    assert_ne!(str2, str3);
    assert_ne!(str1, str3);

    assert!(!str1.is_empty());
    assert!(!str2.is_empty());
    assert!(!str3.is_empty());
}

#[test]
fn execution_ids_from_a_shared_generator_are_distinct() {
    let ids = std::sync::Arc::new(std::sync::Mutex::new(ExecutionIdGenerator::new()));
    let callers: Vec<_> = (0..4).map(|_| ids.clone()).collect();
    let mut all: Vec<u64> = Vec::new();
    for _ in 0..100 {
        for c in &callers {
            all.push(c.lock().unwrap().mint().value());
        }
    }
    all.sort();
    all.dedup();
    assert_eq!(all.len(), 400);
    assert_eq!(ExecutionId { value: 12 }.as_text(), "exec-12");
}

#[test]
fn test_dependency_graph_basic_functionality() {
    let mut graph = DependencyGraph::new();

    let empty_order = graph.get_execution_order(&[]).unwrap();
    assert!(empty_order.is_empty());

    let single_order = graph.get_execution_order(&["solo".to_string()]).unwrap();
    assert_eq!(single_order, vec!["solo"]);

    graph.add_dependency("b".to_string(), "a".to_string());
    graph.add_dependency("c".to_string(), "b".to_string());

    let chain_order = graph
        .get_execution_order(&["c".to_string(), "a".to_string(), "b".to_string()])
        .unwrap();
    assert_eq!(chain_order, vec!["a", "b", "c"]);
}

#[test]
fn test_dependency_graph_cycle_detection() {
    let mut graph = DependencyGraph::new();

    graph.add_dependency("b".to_string(), "a".to_string());
    graph.add_dependency("c".to_string(), "b".to_string());
    graph.add_dependency("a".to_string(), "c".to_string());

    let result = graph.get_execution_order(&["a".to_string(), "b".to_string(), "c".to_string()]);
    assert!(result.is_err());

    let error_msg = result.unwrap_err().message();
    assert!(error_msg.contains("Circular dependency"));
}

#[test]
fn dependency_order_uses_only_edges_within_the_subset() {
    let mut graph = DependencyGraph::new();
    graph.add_dependency("b".to_string(), "a".to_string());
    graph.add_dependency("a".to_string(), "b".to_string());
    graph.add_dependency("d".to_string(), "c".to_string());
    // the cycle lies outside the subset
    let order = graph
        .get_execution_order(&["d".to_string(), "c".to_string(), "x".to_string()])
        .unwrap();
    assert_eq!(order, vec!["c", "d", "x"]);
    // a self-dependency is a cycle
    graph.add_dependency("s".to_string(), "s".to_string());
    assert!(graph.get_execution_order(&["s".to_string()]).is_err());
    // duplicates in the subset are scheduled once
    let order = graph
        .get_execution_order(&["d".to_string(), "c".to_string(), "d".to_string()])
        .unwrap();
    assert_eq!(order, vec!["c", "d"]);
}

#[test]
fn test_retry_config_defaults() {
    let default_config = RetryConfig::default();

    assert_eq!(default_config.max_attempts, 3);
    assert!(matches!(default_config.backoff_type, BackoffType::Exponential));
    assert_eq!(default_config.initial_delay_ms, 100);
    assert_eq!(default_config.max_delay_ms, 30_000);
}

#[test]
fn test_tool_context_config_defaults() {
    let default_config = ToolContextConfig::default();

    assert!(default_config.auto_record);
    assert!(!default_config.auto_experiment);
    assert!(default_config.cache_results);
    assert_eq!(default_config.max_execution_time_ms, 300_000);
    assert!(!default_config.debug_mode);
}

#[test]
fn exponential_backoff_doubles_up_to_the_maximum() {
    let cfg = RetryConfig { max_attempts: 20, ..RetryConfig::default() };
    let delays: Vec<u64> = (1..=12).map(|a| cfg.delay_after(a)).collect();
    assert_eq!(delays[0], 100);
    assert_eq!(delays[1], 200);
    assert_eq!(delays[2], 400);
    assert_eq!(delays[8], 25_600);
    assert_eq!(delays[9], 30_000);
    assert_eq!(delays[11], 30_000);
    assert!(delays.windows(2).all(|w| w[0] <= w[1]));
    let fixed = RetryConfig { backoff_type: BackoffType::Fixed, ..cfg };
    assert_eq!(fixed.delay_after(5), 100);
    let huge = RetryConfig { initial_delay_ms: u64::MAX, max_delay_ms: u64::MAX, ..cfg };
    assert_eq!(huge.delay_after(3), u64::MAX);
}

#[test]
fn retries_never_pass_the_attempt_limit() {
    let cfg = Some(RetryConfig::default());
    let r = run_attempts(&cfg, &[false, false, false, true]);
    assert!(!r.success);
    assert_eq!(r.attempts, 3);
    assert_eq!(r.waits_ms, vec![100, 200]);
    assert_eq!(after_attempt(&cfg, 3, false), AttemptDecision::Done { success: false });
    assert_eq!(
        after_attempt(&cfg, 1, false),
        AttemptDecision::RetryAfter { delay_ms: 100, next_attempt: 2 }
    );
    let single = run_attempts(&None, &[false]);
    assert_eq!(single.attempts, 1);
    assert!(single.waits_ms.is_empty());
}

#[test]
fn failing_step_succeeds_on_third_attempt_in_fail_fast_pipeline() {
    let mut a = step("A", "observe");
    a.retry_config = Some(RetryConfig::default());
    let p = pipeline("p", vec![a], true);
    let mut ids = ExecutionIdGenerator::new();
    let mut ctx = ToolContext::new(ids.mint());
    let mut run = PipelineRun::start(&p, &known()).unwrap();
    assert_eq!(run.next_step(&p, &ctx), StepAction::Run { step: 0 });
    let report = run_attempts(&p.steps[0].retry_config, &[false, false, true]);
    assert!(report.success);
    assert_eq!(report.attempts, 3);
    assert_eq!(report.waits_ms.len(), 2);
    let waited: u64 = report.waits_ms.iter().sum();
    let mut res = result("A", ids.mint(), report.success);
    res.execution_time_ms = waited;
    run.finish_step(&p, &mut ctx, res);
    assert_eq!(run.next_step(&p, &ctx), StepAction::Finished);
    assert_eq!(run.status, RunStatus::Completed);
    assert!(run.failed_steps.is_empty());
    let a = ctx.get_result("A").unwrap();
    assert!(a.success);
    assert!(a.execution_time_ms >= 100 + 200);
}

#[test]
fn step_conditioned_on_failure_is_skipped_after_success() {
    let a = step("A", "observe");
    let mut b = step("B", "experiment");
    b.condition = Some(StepCondition::Failed("A".to_string()));
    let p = pipeline("p", vec![a, b], false);
    let mut ids = ExecutionIdGenerator::new();
    let mut ctx = ToolContext::new(ids.mint());
    let mut run = PipelineRun::start(&p, &known()).unwrap();
    assert_eq!(run.next_step(&p, &ctx), StepAction::Run { step: 0 });
    run.finish_step(&p, &mut ctx, result("A", ids.mint(), true));
    assert_eq!(run.next_step(&p, &ctx), StepAction::Finished);
    assert!(ctx.get_result("B").is_none());
    assert_eq!(ctx.metadata.execution_count, 1);
}

#[test]
fn fail_fast_aborts_and_continue_collects_failures() {
    let p = pipeline("p", vec![step("A", "observe"), step("B", "replay")], true);
    let mut ids = ExecutionIdGenerator::new();
    let mut ctx = ToolContext::new(ids.mint());
    let mut run = PipelineRun::start(&p, &known()).unwrap();
    run.next_step(&p, &ctx);
    run.finish_step(&p, &mut ctx, result("A", ids.mint(), false));
    assert_eq!(run.status, RunStatus::Aborted);
    assert_eq!(run.next_step(&p, &ctx), StepAction::Finished);
    assert_eq!(run.failed_steps, vec!["A"]);

    let p = pipeline("q", vec![step("A", "observe"), step("B", "replay")], false);
    let mut ctx = ToolContext::new(ids.mint());
    let mut run = PipelineRun::start(&p, &known()).unwrap();
    run.next_step(&p, &ctx);
    run.finish_step(&p, &mut ctx, result("A", ids.mint(), false));
    assert_eq!(run.next_step(&p, &ctx), StepAction::Run { step: 1 });
    run.finish_step(&p, &mut ctx, result("B", ids.mint(), false));
    assert_eq!(run.next_step(&p, &ctx), StepAction::Finished);
    assert_eq!(run.failed_steps, vec!["A", "B"]);
    assert_eq!(run.status, RunStatus::Completed);
}

#[test]
fn test_mcp_server_custom_pipeline_validation() {
    let steps: Vec<PipelineStep> = (0..51).map(|i| step(&format!("step_{}", i), "observe")).collect();
    let p = pipeline("too_many_steps", steps, true);
    let result = PipelineRun::start(&p, &known());
    assert!(result.is_err());
    let error_msg = result.unwrap_err().message();
    assert!(error_msg.contains("too complex") || error_msg.contains("50 steps"));
}

#[test]
fn pipeline_with_51_steps_runs_nothing() {
    let steps: Vec<PipelineStep> = (0..51).map(|i| step(&format!("step_{}", i), "observe")).collect();
    let p = pipeline("big", steps, true);
    let mut ids = ExecutionIdGenerator::new();
    let ctx = ToolContext::new(ids.mint());
    match PipelineRun::start(&p, &known()) {
        Err(ValidationError::TooComplex { step_count }) => assert_eq!(step_count, 51),
        other => panic!("unexpected: {:?}", other),
    }
    assert_eq!(ctx.metadata.execution_count, 0);
    let steps: Vec<PipelineStep> = (0..50).map(|i| step(&format!("step_{}", i), "observe")).collect();
    assert!(pipeline("max", steps, true).validate(&known()).is_ok());
}

#[test]
fn test_mcp_server_invalid_tool_validation() {
    let p = pipeline("invalid_tool_test", vec![step("bad_step", "nonexistent_tool")], true);
    let result = p.validate(&known());
    assert!(result.is_err());
    let error_msg = result.unwrap_err().message();
    assert!(error_msg.contains("Unknown tool") || error_msg.contains("nonexistent_tool"));
}

#[test]
fn each_single_violation_is_named() {
    let mut s = step("slow", "observe");
    s.timeout_ms = Some(600_001);
    match pipeline("t", vec![step("ok", "observe"), s], true).validate(&known()) {
        Err(ValidationError::TimeoutTooLong { step, timeout_ms }) => {
            assert_eq!(step, "slow");
            assert_eq!(timeout_ms, 600_001);
        }
        other => panic!("unexpected: {:?}", other),
    }
    let mut s = step("edge", "observe");
    s.timeout_ms = Some(600_000);
    assert!(pipeline("t", vec![s], true).validate(&known()).is_ok());
    match pipeline("t", vec![step("bad", "nope")], true).validate(&known()) {
        Err(ValidationError::UnknownTool { step, tool }) => {
            assert_eq!(step, "bad");
            assert_eq!(tool, "nope");
        }
        other => panic!("unexpected: {:?}", other),
    }
}

#[test]
fn orchestrator_registers_tools_and_templates() {
    let mut o = ToolOrchestrator::new();
    assert!(o.begin_tool("observe").is_err());
    o.register_tool("observe".to_string());
    o.register_tool("observe".to_string());
    assert_eq!(o.known_tools().len(), 1);
    let id1 = o.begin_tool("observe").unwrap();
    let id2 = o.begin_tool("observe").unwrap();
    assert_ne!(id1, id2);
    o.register_pipeline_template(WorkflowDSL::debug_performance());
    assert_eq!(o.get_template("debug_performance").unwrap().steps.len(), 2);
    match o.get_template("missing") {
        Err(ValidationError::UnknownTemplate { name }) => assert_eq!(name, "missing"),
        other => panic!("unexpected: {:?}", other.map(|p| p.name.clone())),
    }
}

#[test]
fn template_steps_run_in_chain_order() {
    let p = WorkflowDSL::observe_experiment_replay();
    assert_eq!(p.execution_order().unwrap(), vec!["observe", "experiment", "replay"]);
    let empty = pipeline("e", Vec::new(), true);
    assert!(empty.execution_order().unwrap().is_empty());
}

#[test]
fn default_orchestrator_offers_six_tools_and_two_templates() {
    let o = create_orchestrator();
    for t in ["observe", "experiment", "hypothesis", "stress", "replay", "anomaly"] {
        assert!(o.is_registered(t));
    }
    assert!(!o.is_registered("nonexistent_tool"));
    let p = o.get_template("debug_performance").unwrap();
    assert!(p.validate(o.known_tools()).is_ok());
    let p = o.get_template("observe_experiment_replay").unwrap();
    assert!(p.validate(o.known_tools()).is_ok());
}

#[test]
fn template_and_custom_submissions_resolve() {
    let o = create_orchestrator();
    let submission = PipelineSubmission::Template("observe_experiment_replay".to_string());
    let (p, run) = o.resolve_submission(&submission).unwrap();
    assert_eq!(p.steps.len(), 3);
    assert_eq!(run.position, 0);
    let unknown = PipelineSubmission::Template("nope".to_string());
    match o.resolve_submission(&unknown) {
        Err(ValidationError::UnknownTemplate { name }) => assert_eq!(name, "nope"),
        _ => panic!("unknown template accepted"),
    }
    let custom = PipelineSubmission::Custom(pipeline("c", vec![step("s", "stress")], true));
    assert!(o.resolve_submission(&custom).is_ok());
    let bad = PipelineSubmission::Custom(pipeline("b", vec![step("s", "nonexistent_tool")], true));
    assert!(matches!(o.resolve_submission(&bad), Err(ValidationError::UnknownTool { .. })));
}

#[test]
fn repeated_step_names_are_a_cycle_and_nothing_runs() {
    let p = pipeline("loop", vec![step("A", "observe"), step("B", "replay"), step("A", "observe")], true);
    assert!(p.validate(&known()).is_ok());
    match PipelineRun::start(&p, &known()) {
        Err(ValidationError::CircularDependency { remaining }) => {
            assert!(!remaining.is_empty());
        }
        other => panic!("unexpected: {:?}", other),
    }
    let msg = PipelineRun::start(&p, &known()).unwrap_err().message();
    assert!(msg.contains("Circular dependency"));
    let o = create_orchestrator();
    let custom = PipelineSubmission::Custom(p);
    assert!(matches!(
        o.resolve_submission(&custom),
        Err(ValidationError::CircularDependency { .. })
    ));
    let twice = pipeline("twice", vec![step("A", "observe"), step("A", "observe")], true);
    assert!(PipelineRun::start(&twice, &known()).is_err());
}

#[test]
fn unknown_template_is_refused() {
    let o = create_orchestrator();
    match o.get_template("nope") {
        Err(e) => assert_eq!(e.message(), "Unknown pipeline template nope"),
        Ok(_) => panic!("unknown template found"),
    }
}

#[test]
fn recorded_outcome_keeps_output_and_error() {
    let mut o = create_orchestrator();
    let mut ctx = ToolContext::new(o.new_execution_id());
    let id = o.begin_tool("observe").unwrap();
    let r = record_tool_outcome(&mut ctx, "A".to_string(), id, Ok("v".to_string()), 5, 0);
    assert_eq!(r, Ok("v".to_string()));
    let a = ctx.get_result("A").unwrap();
    assert!(a.success);
    assert_eq!(a.output, "v");
    assert!(a.error.is_none());
    let id2 = o.begin_tool("observe").unwrap();
    assert_ne!(id, id2);
    record_tool_outcome(&mut ctx, "B".to_string(), id2, Err("boom".to_string()), 5, 0);
    assert_eq!(ctx.get_result("B").unwrap().error, Some("boom".to_string()));
}
