use satori_rs_agent::agent::{result_field, tool_answer, tool_result_text};
use serde_json::Value;
use satori_rs_agent::{
    AgentError, AgentRun, CalcOperation, CalculatorTool, MockLLM, RuleBasedPlanner, RunAction, RunEvent,
    RunPhase, SearchTool, ToolArguments,
};

/// Drives a run the way an agent does: plan, call the tool, let the model
/// word the answer.
fn run(input: &str, llm: Option<&MockLLM>) -> Result<String, AgentError> {
    let planner = RuleBasedPlanner::new();
    let mut run = AgentRun::new(input, llm.is_some());
    let plan = match planner.plan(input) {
        Ok(p) => p,
        Err(e) => return finish(run.step(RunEvent::Failed(e))),
    };
    let mut action = run.step(RunEvent::Planned(plan.as_ref().map(|p| p.tool_name.clone())));
    loop {
        action = match action {
            RunAction::CallTool(tool) => {
                let args = plan.as_ref().unwrap().arguments.clone();
                run.step(call_tool(&tool, args))
            }
            RunAction::Complete(prompt) => match llm.unwrap().complete(&prompt) {
                Ok(s) => run.step(RunEvent::Completed(s)),
                Err(e) => run.step(RunEvent::Failed(e)),
            },
            RunAction::Finish(r) => return r,
        }
    }
}

fn finish(a: RunAction) -> Result<String, AgentError> {
    match a {
        RunAction::Finish(r) => r,
        _ => panic!("expected the end of the run"),
    }
}

/// A JSON object with the given members.
fn object(members: Vec<(&str, Value)>) -> Value {
    let mut m = serde_json::Map::new();
    for (k, v) in members {
        m.insert(k.to_string(), v);
    }
    Value::Object(m)
}

/// What the built-in tools answer, as the JSON output they give.
fn tool_output(tool: &str, args: ToolArguments) -> Result<Value, AgentError> {
    match (tool, args) {
        ("calculator", ToolArguments::Calculation { operation, a, b }) => {
            let (a, b): (f64, f64) = (a.parse().unwrap(), b.parse().unwrap());
            let result = match CalculatorTool::new().select_operation(operation.name(), b == 0.0)? {
                CalcOperation::Add => a + b,
                CalcOperation::Subtract => a - b,
                CalcOperation::Multiply => a * b,
                CalcOperation::Divide => a / b,
            };
            Ok(object(vec![
                ("result", Value::from(result)),
                ("operation", Value::from(operation.name())),
                ("a", Value::from(a)),
                ("b", Value::from(b)),
            ]))
        }
        ("search", ToolArguments::Search { query }) => Ok(object(vec![
            ("result", Value::from(SearchTool::new().search_result(&query))),
            ("query", Value::from(query)),
        ])),
        (other, _) => Err(AgentError::ToolError(format!("Tool not found: {}", other))),
    }
}

/// The event a tool call hands the run: the text of the output's `result`
/// field, or the failure.
fn call_tool(tool: &str, args: ToolArguments) -> RunEvent {
    match tool_output(tool, args) {
        Ok(output) => RunEvent::ToolAnswered(result_field(&output)),
        Err(e) => RunEvent::Failed(e),
    }
}

#[test]
fn test_agent_calculator() {
    let llm = MockLLM::new("test", "mock");
    let result: Result<String, _> = run("计算 10 * 20", Some(&llm));
    assert!(result.is_ok());
}

#[test]
fn test_agent_search() {
    let llm = MockLLM::new("test", "mock");
    let result: Result<String, _> = run("搜索 Rust Tokio", Some(&llm));
    assert!(result.is_ok());
}

#[test]
fn run_without_model_answers_with_tool_result() {
    assert_eq!(run("计算 10 * 20", None).unwrap(), "200.0");
    assert_eq!(run("搜索 Rust Tokio", None).unwrap(), "Mock Search Result for: 搜索 Rust Tokio");
}

#[test]
fn run_with_model_words_the_answer_from_the_prompt() {
    let llm = MockLLM::new("test", "mock");
    assert_eq!(
        run("计算 10 * 20", Some(&llm)).unwrap(),
        "Mock response for prompt: 'User asked: '计算 10 * 20'. Tool 'calculator' returned: 200.0. \
         Provide a helpful response.'. This is a simulated LLM response."
    );
}

#[test]
fn unplanned_input_goes_to_the_model_or_is_refused() {
    assert_eq!(run("Hello world", None).unwrap(), "I don't know how to handle: Hello world");
    let llm = MockLLM::new("m", "x").with_response("hi there");
    assert_eq!(run("Hello world", Some(&llm)).unwrap(), "hi there");
}

#[test]
fn division_by_zero_fails_the_run() {
    let err = run("计算 1 / 0", None).unwrap_err();
    assert_eq!(err.to_string(), "Tool execution failed: Division by zero");
}

#[test]
fn run_phases_advance_and_failures_propagate() {
    let mut run = AgentRun::new("x", true);
    assert_eq!(run.phase_now(), RunPhase::Planning);
    match run.step(RunEvent::Planned(Some("search".to_string()))) {
        RunAction::CallTool(t) => assert_eq!(t, "search"),
        _ => panic!(),
    }
    assert_eq!(run.phase_now(), RunPhase::CallingTool);
    match run.step(RunEvent::Failed(AgentError::NetworkError("down".to_string()))) {
        RunAction::Finish(Err(AgentError::NetworkError(m))) => assert_eq!(m, "down"),
        _ => panic!(),
    }
    assert_eq!(run.phase_now(), RunPhase::Done);
}

#[test]
fn tool_without_result_field_answers_no_result() {
    assert_eq!(tool_result_text(None), "No result");
    assert_eq!(tool_result_text(Some("42".to_string())), "42");
    let mut run = AgentRun::new("q", false);
    run.step(RunEvent::Planned(Some("t".to_string())));
    match run.step(RunEvent::ToolAnswered(None)) {
        RunAction::Finish(Ok(s)) => assert_eq!(s, "No result"),
        _ => panic!(),
    }
}

#[test]
fn result_field_reads_strings_numbers_and_other_values() {
    let text = object(vec![("result", Value::from("forty two"))]);
    assert_eq!(result_field(&text), Some("forty two".to_string()));
    assert_eq!(result_field(&object(vec![("result", Value::from(42))])), Some("42".to_string()));
    assert_eq!(result_field(&object(vec![("result", Value::from(2.5))])), Some("2.5".to_string()));
    assert_eq!(result_field(&object(vec![("result", Value::from(200.0))])), Some("200.0".to_string()));
    assert_eq!(result_field(&object(vec![("result", Value::Bool(true))])), Some("true".to_string()));
    assert_eq!(result_field(&object(vec![("result", Value::Null)])), Some("null".to_string()));
    let nested = object(vec![("result", object(vec![("k", Value::from("v"))]))]);
    assert_eq!(result_field(&nested), Some("{\"k\":\"v\"}".to_string()));
    let list = object(vec![("result", Value::Array(vec![Value::from(1), Value::from("a")]))]);
    assert_eq!(result_field(&list), Some("[1,\"a\"]".to_string()));
    assert_eq!(result_field(&object(vec![("other", Value::from(1))])), None);
    assert_eq!(result_field(&Value::from("result")), None);
}

#[test]
fn tool_answer_is_the_result_text_or_no_result() {
    assert_eq!(tool_answer(&object(vec![("result", Value::from("ok"))])), "ok");
    assert_eq!(tool_answer(&object(vec![("result", Value::from(7))])), "7");
    assert_eq!(tool_answer(&object(vec![])), "No result");
}
