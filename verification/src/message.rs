//! Messages exchanged between actors, and references to actors.

use vstd::prelude::*;
use vstd::string::*;
use serde_json::Value;
use crate::ids::random_uuid;

verus! {

/// A reference to an actor, by id.
#[derive(Debug, Clone)]
pub struct ActorRef {
    pub id: String,
}

impl ActorRef {
    pub fn new(id: &str) -> (r: Self)
        ensures
            r.id@ == id@,
    {
        ActorRef { id: String::from_str(id) }
    }
}

/// A request to call a tool with JSON arguments.
#[derive(Debug)]
pub struct ToolCall {
    pub tool_name: String,
    pub arguments: Value,
}

impl ToolCall {
    pub fn new(tool_name: &str, arguments: Value) -> (r: Self)
        ensures
            r.tool_name@ == tool_name@,
            r.arguments == arguments,
    {
        ToolCall { tool_name: String::from_str(tool_name), arguments }
    }
}

/// What a message carries.
#[derive(Debug)]
pub enum Payload {
    UserInput(String),
    ToolCall(ToolCall),
    ToolResult(String),
    AgentResponse(String),
}

/// A message between actors, with a random 128-bit id.
#[derive(Debug)]
pub struct Message {
    pub id: u128,
    pub sender: String,
    pub target: String,
    pub payload: Payload,
}

impl Message {
    /// A message from `sender` to `target` carrying `payload`, under a fresh
    /// random id (a version 4 UUID).
    pub fn new(sender: &str, target: &str, payload: Payload) -> (r: Self)
        ensures
            (r.id >> 76u128) & 0xfu128 == 4u128,
            (r.id >> 62u128) & 3u128 == 2u128,
            r.sender@ == sender@,
            r.target@ == target@,
            r.payload == payload,
    {
        Message {
            id: random_uuid(),
            sender: String::from_str(sender),
            target: String::from_str(target),
            payload,
        }
    }

    /// User input for the agent.
    pub fn user_input(sender: &str, content: &str) -> (r: Self)
        ensures
            (r.id >> 76u128) & 0xfu128 == 4u128,
            (r.id >> 62u128) & 3u128 == 2u128,
            r.sender@ == sender@,
            r.target@ == "agent"@,
            r.payload matches Payload::UserInput(c) && c@ == content@,
    {
        Message::new(sender, "agent", Payload::UserInput(String::from_str(content)))
    }

    /// A tool call for the agent.
    pub fn tool_call(sender: &str, tool_call: ToolCall) -> (r: Self)
        ensures
            (r.id >> 76u128) & 0xfu128 == 4u128,
            (r.id >> 62u128) & 3u128 == 2u128,
            r.sender@ == sender@,
            r.target@ == "agent"@,
            r.payload == Payload::ToolCall(tool_call),
    {
        Message::new(sender, "agent", Payload::ToolCall(tool_call))
    }

    /// A tool result for the agent.
    pub fn tool_result(sender: &str, result: &str) -> (r: Self)
        ensures
            (r.id >> 76u128) & 0xfu128 == 4u128,
            (r.id >> 62u128) & 3u128 == 2u128,
            r.sender@ == sender@,
            r.target@ == "agent"@,
            r.payload matches Payload::ToolResult(c) && c@ == result@,
    {
        Message::new(sender, "agent", Payload::ToolResult(String::from_str(result)))
    }

    /// The agent's response for the user.
    pub fn agent_response(sender: &str, response: &str) -> (r: Self)
        ensures
            (r.id >> 76u128) & 0xfu128 == 4u128,
            (r.id >> 62u128) & 3u128 == 2u128,
            r.sender@ == sender@,
            r.target@ == "user"@,
            r.payload matches Payload::AgentResponse(c) && c@ == response@,
    {
        Message::new(sender, "user", Payload::AgentResponse(String::from_str(response)))
    }
}

} // verus!
