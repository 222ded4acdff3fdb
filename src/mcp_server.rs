use vstd::prelude::*;

use crate::error::{ErrorContext, ErrorSeverity};
use crate::text::str_eq;

verus! {

/// The tools the server answers, by the name a client calls them with.
#[derive(Debug, Clone, Copy, PartialEq, Eq, Structural)]
pub enum McpTool {
    Observe,
    Experiment,
    Hypothesis,
    Stress,
    Replay,
    Anomaly,
    Orchestrate,
    Pipeline,
    ResourceMetrics,
    PerformanceDashboard,
    HealthCheck,
    DeadLetterQueue,
    DiagnosticReport,
    Checkpoint,
    BugReport,
}

/// The name a client uses for each tool.
pub open spec fn tool_name(t: McpTool) -> Seq<char> {
    match t {
        McpTool::Observe => "observe"@,
        McpTool::Experiment => "experiment"@,
        McpTool::Hypothesis => "hypothesis"@,
        McpTool::Stress => "stress"@,
        McpTool::Replay => "replay"@,
        McpTool::Anomaly => "anomaly"@,
        McpTool::Orchestrate => "orchestrate"@,
        McpTool::Pipeline => "pipeline"@,
        McpTool::ResourceMetrics => "resource_metrics"@,
        McpTool::PerformanceDashboard => "performance_dashboard"@,
        McpTool::HealthCheck => "health_check"@,
        McpTool::DeadLetterQueue => "dead_letter_queue"@,
        McpTool::DiagnosticReport => "diagnostic_report"@,
        McpTool::Checkpoint => "checkpoint"@,
        McpTool::BugReport => "bug_report"@,
    }
}

impl McpTool {
    /// The name a client uses for the tool.
    pub fn name(&self) -> (r: &'static str)
        ensures
            r@ == tool_name(*self),
    {
        match self {
            McpTool::Observe => "observe",
            McpTool::Experiment => "experiment",
            McpTool::Hypothesis => "hypothesis",
            McpTool::Stress => "stress",
            McpTool::Replay => "replay",
            McpTool::Anomaly => "anomaly",
            McpTool::Orchestrate => "orchestrate",
            McpTool::Pipeline => "pipeline",
            McpTool::ResourceMetrics => "resource_metrics",
            McpTool::PerformanceDashboard => "performance_dashboard",
            McpTool::HealthCheck => "health_check",
            McpTool::DeadLetterQueue => "dead_letter_queue",
            McpTool::DiagnosticReport => "diagnostic_report",
            McpTool::Checkpoint => "checkpoint",
            McpTool::BugReport => "bug_report",
        }
    }

    /// The tool a client called by name; an unknown name is refused with a
    /// message naming it.
    pub fn from_name(name: &str) -> (r: Result<McpTool, String>)
        ensures
            r matches Ok(t) ==> tool_name(t) == name@,
            r is Err <==> forall|t: McpTool| tool_name(t) != name@,
            r matches Err(m) ==> m@ == "Unknown tool: "@ + name@,
    {
        let all = [
            McpTool::Observe,
            McpTool::Experiment,
            McpTool::Hypothesis,
            McpTool::Stress,
            McpTool::Replay,
            McpTool::Anomaly,
            McpTool::Orchestrate,
            McpTool::Pipeline,
            McpTool::ResourceMetrics,
            McpTool::PerformanceDashboard,
            McpTool::HealthCheck,
            McpTool::DeadLetterQueue,
            McpTool::DiagnosticReport,
            McpTool::Checkpoint,
            McpTool::BugReport,
        ];
        let mut i: usize = 0;
        while i < 15
            invariant
                i <= 15,
                all@.len() == 15,
                forall|j: int| 0 <= j < i ==> tool_name(#[trigger] all@[j]) != name@,
            decreases 15 - i,
        {
            if str_eq(all[i].name(), name) {
                return Ok(all[i]);
            }
            i = i + 1;
        }
        proof {
            assert forall|t: McpTool| tool_name(t) != name@ by {
                let j: int = match t {
                    McpTool::Observe => 0,
                    McpTool::Experiment => 1,
                    McpTool::Hypothesis => 2,
                    McpTool::Stress => 3,
                    McpTool::Replay => 4,
                    McpTool::Anomaly => 5,
                    McpTool::Orchestrate => 6,
                    McpTool::Pipeline => 7,
                    McpTool::ResourceMetrics => 8,
                    McpTool::PerformanceDashboard => 9,
                    McpTool::HealthCheck => 10,
                    McpTool::DeadLetterQueue => 11,
                    McpTool::DiagnosticReport => 12,
                    McpTool::Checkpoint => 13,
                    McpTool::BugReport => 14,
                };
                assert(all@[j] == t);
            }
        }
        let mut m = String::from_str("Unknown tool: ");
        m.append(name);
        Err(m)
    }
}

/// The error record kept for a failed tool call: retryable, of severity
/// `Error`, with the failure as its cause and the tool and its arguments as
/// context.
pub fn tool_error_context(tool: &str, failure: &str, arguments: &str) -> (r: ErrorContext)
    ensures
        r.operation@ == tool@,
        r.component@ == "mcp_server"@,
        crate::error::strings_of(r.error_chain@) == seq![failure@],
        r.is_retryable,
        r.severity == ErrorSeverity::Error,
        r.context_map() == map![
            "tool"@ => if crate::error::is_sensitive_key("tool"@) {
                crate::error::redacted()
            } else {
                tool@
            },
            "arguments"@ => if crate::error::is_sensitive_key("arguments"@) {
                crate::error::redacted()
            } else {
                arguments@
            },
        ],
{
    let c = ErrorContext::new(tool, "mcp_server");
    proof {
        assert(crate::error::strings_of(c.error_chain@) =~= Seq::<Seq<char>>::empty());
        assert(crate::error::pair_entries(c.context_data@) =~= Seq::empty());
    }
    let r = c.add_cause(failure).add_context("tool", tool).add_context("arguments", arguments).set_retryable(
        true,
    ).set_severity(ErrorSeverity::Error);
    proof {
        reveal_strlit("tool");
        reveal_strlit("arguments");
        assert("tool"@ != "arguments"@) by {
            assert("tool"@.len() != "arguments"@.len());
        }
        assert(r.context_map() =~= map![
            "tool"@ => if crate::error::is_sensitive_key("tool"@) {
                crate::error::redacted()
            } else {
                tool@
            },
            "arguments"@ => if crate::error::is_sensitive_key("arguments"@) {
                crate::error::redacted()
            } else {
                arguments@
            },
        ]);
    }
    r
}

} // verus!
