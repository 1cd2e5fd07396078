//! Errors raised by the agent framework.

use vstd::prelude::*;
use vstd::string::*;

verus! {

/// Error type shared by every part of the framework.
#[derive(Debug, Clone)]
pub enum AgentError {
    HandleError(String),
    ToolError(String),
    ActorNotFound(String),
    InvalidMessage(String),
    LlmError(String),
    SerializationError(String),
    NetworkError(String),
    PlannerError(String),
    TaskGraphError(String),
    RegistryError(String),
}

/// The text that prefixes the detail of each kind of error.
pub open spec fn error_prefix(e: AgentError) -> Seq<char> {
    match e {
        AgentError::HandleError(_) => "Message handling failed: "@,
        AgentError::ToolError(_) => "Tool execution failed: "@,
        AgentError::ActorNotFound(_) => "Actor not found: "@,
        AgentError::InvalidMessage(_) => "Invalid message: "@,
        AgentError::LlmError(_) => "LLM error: "@,
        AgentError::SerializationError(_) => "Serialization error: "@,
        AgentError::NetworkError(_) => "Network error: "@,
        AgentError::PlannerError(_) => "Planner error: "@,
        AgentError::TaskGraphError(_) => "Task graph error: "@,
        AgentError::RegistryError(_) => "Registry error: "@,
    }
}

impl AgentError {
    /// The detail text carried by the error.
    pub open spec fn detail(&self) -> Seq<char> {
        match self {
            AgentError::HandleError(s) => s@,
            AgentError::ToolError(s) => s@,
            AgentError::ActorNotFound(s) => s@,
            AgentError::InvalidMessage(s) => s@,
            AgentError::LlmError(s) => s@,
            AgentError::SerializationError(s) => s@,
            AgentError::NetworkError(s) => s@,
            AgentError::PlannerError(s) => s@,
            AgentError::TaskGraphError(s) => s@,
            AgentError::RegistryError(s) => s@,
        }
    }

    /// The human-readable text of the error: its kind's prefix followed by its detail.
    pub open spec fn text(&self) -> Seq<char> {
        error_prefix(*self) + self.detail()
    }

    /// Renders the error as text, e.g. `Tool execution failed: Division by zero`.
    pub fn to_string(&self) -> (r: String)
        ensures
            r@ == self.text(),
    {
        let (prefix, detail) = match self {
            AgentError::HandleError(s) => ("Message handling failed: ", s),
            AgentError::ToolError(s) => ("Tool execution failed: ", s),
            AgentError::ActorNotFound(s) => ("Actor not found: ", s),
            AgentError::InvalidMessage(s) => ("Invalid message: ", s),
            AgentError::LlmError(s) => ("LLM error: ", s),
            AgentError::SerializationError(s) => ("Serialization error: ", s),
            AgentError::NetworkError(s) => ("Network error: ", s),
            AgentError::PlannerError(s) => ("Planner error: ", s),
            AgentError::TaskGraphError(s) => ("Task graph error: ", s),
            AgentError::RegistryError(s) => ("Registry error: ", s),
        };
        let mut r = String::from_str(prefix);
        r.append(detail.as_str());
        r
    }
}

} // verus!
