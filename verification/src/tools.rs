//! The built-in tools: a calculator and a (mock) search.
//!
//! What is decided here is what the tools read from their JSON input (the
//! operation name, the search query), which operation runs, which inputs are
//! refused, and the texts the tools answer with. The arithmetic on
//! floating-point operands happens where the tools are wired to the async
//! runtime.

use vstd::prelude::*;
use vstd::string::*;
use serde_json::Value;
use crate::error::AgentError;
use crate::json::{member_of, string_of_value, value_as_text, value_member};

verus! {

/// The text field `key` of a tool's JSON input, or `unknown` when the input
/// has no such field or the field is not a JSON string.
pub open spec fn field_or_unknown(v: Value, key: Seq<char>) -> Seq<char> {
    match member_of(v, key) {
        Some(f) => match string_of_value(f) {
            Some(t) => t,
            None => "unknown"@,
        },
        None => "unknown"@,
    }
}

/// Reads the text field `key` of a tool's JSON input, or `unknown`.
fn text_field_or_unknown(input: &Value, key: &str) -> (r: String)
    ensures
        r@ == field_or_unknown(*input, key@),
{
    match value_member(input, key) {
        Some(f) => match value_as_text(f) {
            Some(t) => t,
            None => String::from_str("unknown"),
        },
        None => String::from_str("unknown"),
    }
}

/// The four operations of the calculator.
#[derive(Debug, Clone, Copy, PartialEq, Eq, Structural)]
pub enum CalcOperation {
    Add,
    Subtract,
    Multiply,
    Divide,
}

impl CalcOperation {
    /// The name under which the operation is requested.
    pub open spec fn spec_name(self) -> Seq<char> {
        match self {
            CalcOperation::Add => "add"@,
            CalcOperation::Subtract => "subtract"@,
            CalcOperation::Multiply => "multiply"@,
            CalcOperation::Divide => "divide"@,
        }
    }

    /// The name under which the operation is requested.
    pub fn name(&self) -> (r: &'static str)
        ensures
            r@ == self.spec_name(),
    {
        match self {
            CalcOperation::Add => "add",
            CalcOperation::Subtract => "subtract",
            CalcOperation::Multiply => "multiply",
            CalcOperation::Divide => "divide",
        }
    }
}

/// The operation requested under `name`, if the calculator knows it.
pub open spec fn operation_named(name: Seq<char>) -> Option<CalcOperation> {
    if name == "add"@ {
        Some(CalcOperation::Add)
    } else if name == "subtract"@ {
        Some(CalcOperation::Subtract)
    } else if name == "multiply"@ {
        Some(CalcOperation::Multiply)
    } else if name == "divide"@ {
        Some(CalcOperation::Divide)
    } else {
        None
    }
}

/// What the calculator decides for a requested operation name: the
/// operation to apply, or the error it answers with.
pub open spec fn calculator_decision(name: Seq<char>, divisor_is_zero: bool) -> Result<
    CalcOperation,
    Seq<char>,
> {
    match operation_named(name) {
        None => Err("Unknown operation: "@ + name),
        Some(op) => if op == CalcOperation::Divide && divisor_is_zero {
            Err("Division by zero"@)
        } else {
            Ok(op)
        },
    }
}

/// Every operation is requested under its own name: the calculator runs
/// the operation named by any operation's name, whatever the divisor for
/// all but division.
pub proof fn law_operation_names_round_trip(op: CalcOperation)
    ensures
        operation_named(op.spec_name()) == Some(op),
        op != CalcOperation::Divide ==> calculator_decision(op.spec_name(), true) == Ok::<
            CalcOperation,
            Seq<char>,
        >(op),
        calculator_decision(op.spec_name(), false) == Ok::<CalcOperation, Seq<char>>(op),
{
    reveal_strlit("add");
    reveal_strlit("subtract");
    reveal_strlit("multiply");
    reveal_strlit("divide");
    assert("subtract"@.len() != "add"@.len());
    assert("multiply"@.len() != "add"@.len());
    assert("divide"@.len() != "add"@.len());
    assert("multiply"@[0] != "subtract"@[0]);
    assert("divide"@.len() != "subtract"@.len());
    assert("divide"@.len() != "multiply"@.len());
}

/// The calculator refuses exactly two kinds of request: a division by zero,
/// answered `Division by zero`, and a name other than add, subtract,
/// multiply and divide, answered `Unknown operation: ` and the name.
pub proof fn law_calculator_refusals(name: Seq<char>, divisor_is_zero: bool)
    ensures
        calculator_decision("divide"@, true) == Err::<CalcOperation, Seq<char>>("Division by zero"@),
        name != "add"@ && name != "subtract"@ && name != "multiply"@ && name != "divide"@
            ==> calculator_decision(name, divisor_is_zero) == Err::<CalcOperation, Seq<char>>(
            "Unknown operation: "@ + name,
        ),
        calculator_decision(name, divisor_is_zero) is Err ==> (name == "divide"@ && divisor_is_zero) || (
        name != "add"@ && name != "subtract"@ && name != "multiply"@ && name != "divide"@),
{
    law_operation_names_round_trip(CalcOperation::Divide);
}

/// Whether two texts hold the same characters.
fn same_text(a: &str, b: &str) -> (r: bool)
    ensures
        r == (a@ == b@),
{
    String::from_str(a) == String::from_str(b)
}

/// Basic arithmetic on two numbers.
#[derive(Debug, Clone, Copy)]
pub struct CalculatorTool;

impl CalculatorTool {
    pub fn new() -> (r: Self) {
        CalculatorTool
    }

    /// The name the tool is registered under: `calculator`.
    pub fn name(&self) -> (r: &'static str)
        ensures
            r@ == "calculator"@,
    {
        "calculator"
    }

    pub fn description(&self) -> (r: &'static str)
        ensures
            r@ == "Perform basic mathematical calculations"@,
    {
        "Perform basic mathematical calculations"
    }

    /// The operation name a JSON request carries in its `operation` field,
    /// or `unknown`.
    pub fn operation_of(input: &Value) -> (r: String)
        ensures
            r@ == field_or_unknown(*input, "operation"@),
    {
        text_field_or_unknown(input, "operation")
    }

    /// The operation that a request runs, or the tool error that refuses it:
    /// an unknown operation name, or a division whose divisor is zero.
    pub fn select_operation(&self, operation: &str, divisor_is_zero: bool) -> (r: Result<
        CalcOperation,
        AgentError,
    >)
        ensures
            match calculator_decision(operation@, divisor_is_zero) {
                Ok(op) => r == Ok::<CalcOperation, AgentError>(op),
                Err(msg) => r matches Err(AgentError::ToolError(m)) && m@ == msg,
            },
    {
        let op = if same_text(operation, "add") {
            CalcOperation::Add
        } else if same_text(operation, "subtract") {
            CalcOperation::Subtract
        } else if same_text(operation, "multiply") {
            CalcOperation::Multiply
        } else if same_text(operation, "divide") {
            CalcOperation::Divide
        } else {
            let mut m = String::from_str("Unknown operation: ");
            m.append(operation);
            return Err(AgentError::ToolError(m));
        };
        if op == CalcOperation::Divide && divisor_is_zero {
            return Err(AgentError::ToolError(String::from_str("Division by zero")));
        }
        Ok(op)
    }
}

impl Default for CalculatorTool {
    fn default() -> (r: Self) {
        CalculatorTool::new()
    }
}

/// A search tool that answers with a mock result.
#[derive(Debug, Clone)]
pub struct SearchTool {
    pub query: String,
}

impl SearchTool {
    pub fn new() -> (r: Self)
        ensures
            r.query@ == Seq::<char>::empty(),
    {
        SearchTool { query: String::new() }
    }

    /// The name the tool is registered under: `search`.
    pub fn name(&self) -> (r: &'static str)
        ensures
            r@ == "search"@,
    {
        "search"
    }

    pub fn description(&self) -> (r: &'static str)
        ensures
            r@ == "Search for information on the web"@,
    {
        "Search for information on the web"
    }

    /// The query a JSON request carries in its `query` field, or `unknown`.
    pub fn query_of(input: &Value) -> (r: String)
        ensures
            r@ == field_or_unknown(*input, "query"@),
    {
        text_field_or_unknown(input, "query")
    }

    /// The text the search answers for `query`.
    pub fn search_result(&self, query: &str) -> (r: String)
        ensures
            r@ == "Mock Search Result for: "@ + query@,
    {
        let mut r = String::from_str("Mock Search Result for: ");
        r.append(query);
        r
    }
}

impl Default for SearchTool {
    fn default() -> (r: Self)
        ensures
            r.query@ == Seq::<char>::empty(),
    {
        SearchTool::new()
    }
}

} // verus!
