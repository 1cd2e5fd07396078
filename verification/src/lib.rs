//! Verified core of the satori agent framework: error texts, the rule-based
//! planner, the built-in tools, the tool registry and actor context, the
//! task graph and its scheduler, and the decisions of an agent run.

pub mod agent;
pub mod error;
pub mod ids;
pub mod json;
pub mod keyed;
pub mod llm;
pub mod message;
pub mod planner;
pub mod registry;
pub mod task_graph;
pub mod text;
pub mod tools;

pub use agent::{AgentRun, RunAction, RunEvent, RunPhase};
pub use error::AgentError;
pub use llm::{MockLLM, OllamaEndpoint, OllamaRequest};
pub use message::{ActorRef, Message, Payload, ToolCall};
pub use planner::{PlanningResult, RuleBasedPlanner, ToolArguments};
pub use registry::{Context, ToolRegistry};
pub use task_graph::{ExecStep, Execution, TaskGraph, TaskNode, TaskOutput, TaskResult, TaskStatus};
pub use tools::{CalcOperation, CalculatorTool, SearchTool};
