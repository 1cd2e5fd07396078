use satori_rs_agent::agent::{AgentBuilder, PlannerChoice};
use satori_rs_agent::keyed::KeyedMap;
use satori_rs_agent::text::{contains, trim_chars};
use satori_rs_agent::{
    ActorRef, AgentError, CalcOperation, CalculatorTool, Context, Message, MockLLM, OllamaEndpoint, Payload,
    SearchTool, ToolCall, ToolRegistry,
};
use serde_json::Value;

#[test]
fn error_texts_carry_prefix_and_detail() {
    assert_eq!(AgentError::HandleError("a".into()).to_string(), "Message handling failed: a");
    assert_eq!(AgentError::ToolError("b".into()).to_string(), "Tool execution failed: b");
    assert_eq!(AgentError::ActorNotFound("c".into()).to_string(), "Actor not found: c");
    assert_eq!(AgentError::InvalidMessage("d".into()).to_string(), "Invalid message: d");
    assert_eq!(AgentError::LlmError("e".into()).to_string(), "LLM error: e");
    assert_eq!(AgentError::SerializationError("f".into()).to_string(), "Serialization error: f");
    assert_eq!(AgentError::NetworkError("g".into()).to_string(), "Network error: g");
    assert_eq!(AgentError::PlannerError("h".into()).to_string(), "Planner error: h");
    assert_eq!(AgentError::TaskGraphError("i".into()).to_string(), "Task graph error: i");
    assert_eq!(AgentError::RegistryError("j".into()).to_string(), "Registry error: j");
}

#[test]
fn text_helpers() {
    assert!(contains("hello world", "o w"));
    assert!(contains("abc", ""));
    assert!(!contains("abc", "abcd"));
    assert!(contains("计算 1", "算"));
    let t = trim_chars(&"  a b \t".chars().collect());
    assert_eq!(t, vec!['a', ' ', 'b']);
    assert!(trim_chars(&"   ".chars().collect()).is_empty());
}

#[test]
fn trimming_drops_every_unicode_whitespace_and_nothing_else() {
    let spaces = "\t\n\u{b}\u{c}\r \u{85}\u{a0}\u{1680}\u{2000}\u{200a}\u{2028}\u{2029}\u{202f}\u{205f}\u{3000}";
    let padded = format!("{}x{}", spaces, spaces);
    assert_eq!(trim_chars(&padded.chars().collect()), vec!['x']);
    let kept = "\u{200b}x\u{180e}";
    assert_eq!(trim_chars(&kept.chars().collect()), kept.chars().collect::<Vec<char>>());
}

#[test]
fn calculator_selects_operations_and_refuses_bad_input() {
    let calc = CalculatorTool::new();
    assert_eq!(calc.name(), "calculator");
    assert_eq!(calc.description(), "Perform basic mathematical calculations");
    assert_eq!(calc.select_operation("add", false).unwrap(), CalcOperation::Add);
    assert_eq!(calc.select_operation("subtract", true).unwrap(), CalcOperation::Subtract);
    assert_eq!(calc.select_operation("multiply", true).unwrap(), CalcOperation::Multiply);
    assert_eq!(calc.select_operation("divide", false).unwrap(), CalcOperation::Divide);
    match calc.select_operation("divide", true) {
        Err(AgentError::ToolError(m)) => assert_eq!(m, "Division by zero"),
        other => panic!("{:?}", other),
    }
    match calc.select_operation("power", false) {
        Err(AgentError::ToolError(m)) => assert_eq!(m, "Unknown operation: power"),
        other => panic!("{:?}", other),
    }
    let mut request = serde_json::Map::new();
    request.insert("operation".to_string(), Value::from("add"));
    request.insert("a".to_string(), Value::from(1.0));
    assert_eq!(CalculatorTool::operation_of(&Value::Object(request)), "add");
    let mut numbered = serde_json::Map::new();
    numbered.insert("operation".to_string(), Value::from(3));
    assert_eq!(CalculatorTool::operation_of(&Value::Object(numbered)), "unknown");
    assert_eq!(CalculatorTool::operation_of(&Value::Object(serde_json::Map::new())), "unknown");
    assert_eq!(CalculatorTool::operation_of(&Value::from("add")), "unknown");
    assert_eq!(CalcOperation::Divide.name(), "divide");
}

#[test]
fn search_answers_with_mock_result() {
    let search = SearchTool::new();
    assert_eq!(search.query, "");
    assert_eq!(search.name(), "search");
    assert_eq!(search.description(), "Search for information on the web");
    assert_eq!(search.search_result("rust"), "Mock Search Result for: rust");
    let mut request = serde_json::Map::new();
    request.insert("query".to_string(), Value::from("tokio runtime"));
    assert_eq!(SearchTool::query_of(&Value::Object(request)), "tokio runtime");
    assert_eq!(SearchTool::query_of(&Value::Null), "unknown");
}

#[test]
fn mock_llm_answers() {
    let llm = MockLLM::new("test", "mock");
    assert_eq!(llm.name(), "test");
    assert_eq!(llm.model(), "mock");
    assert_eq!(
        llm.complete("hi").unwrap(),
        "Mock response for prompt: 'hi'. This is a simulated LLM response."
    );
    let fixed = llm.with_response("ok");
    assert_eq!(fixed.complete("anything").unwrap(), "ok");
    assert_eq!(fixed.name(), "test");
    let d = MockLLM::default();
    assert_eq!((d.name(), d.model()), ("mock", "mock-model"));
}

#[test]
fn ollama_requests_and_replies() {
    let ep = OllamaEndpoint::new("http://localhost:11434", "qwen3");
    assert_eq!(ep.name(), "ollama");
    assert_eq!(ep.model(), "qwen3");
    assert_eq!(ep.generate_url(), "http://localhost:11434/api/generate");
    let req = ep.request("why?");
    assert_eq!((req.model.as_str(), req.prompt.as_str(), req.stream), ("qwen3", "why?", false));
    assert!(OllamaEndpoint::check_status(200, "200 OK").is_ok());
    assert!(OllamaEndpoint::check_status(299, "299").is_ok());
    match OllamaEndpoint::check_status(404, "404 Not Found") {
        Err(AgentError::LlmError(m)) => assert_eq!(m, "Ollama API returned error: 404 Not Found"),
        other => panic!("{:?}", other),
    }
    assert!(OllamaEndpoint::check_status(300, "300").is_err());
    match OllamaEndpoint::send_failure("refused") {
        AgentError::NetworkError(m) => assert_eq!(m, "Failed to send request: refused"),
        other => panic!("{:?}", other),
    }
    match OllamaEndpoint::parse_failure("eof") {
        AgentError::LlmError(m) => assert_eq!(m, "Failed to parse response: eof"),
        other => panic!("{:?}", other),
    }
}

#[test]
fn registry_register_get_unregister() {
    let mut reg: ToolRegistry<u32> = ToolRegistry::new();
    assert!(reg.register("calc".to_string(), 1).is_ok());
    reg.register("search".to_string(), 2).unwrap();
    reg.register("calc".to_string(), 3).unwrap();
    assert_eq!(reg.get("calc"), Some(&3));
    assert!(reg.has_tool("search"));
    let mut names = reg.list_tools();
    names.sort();
    assert_eq!(names, vec!["calc".to_string(), "search".to_string()]);
    match reg.lookup("nope") {
        Err(AgentError::ToolError(m)) => assert_eq!(m, "Tool not found: nope"),
        other => panic!("{:?}", other),
    }
    assert!(reg.unregister("calc"));
    assert!(!reg.unregister("calc"));
    assert!(reg.get("calc").is_none());
    reg.clear();
    assert!(reg.list_tools().is_empty());
}

#[test]
fn keyed_map_keeps_first_insertion_order() {
    let mut m = KeyedMap::new();
    m.insert("b".to_string(), 1);
    m.insert("a".to_string(), 2);
    m.insert("b".to_string(), 3);
    assert_eq!(m.keys(), vec!["b".to_string(), "a".to_string()]);
    assert_eq!(m.len(), 2);
    assert_eq!(m.remove("b"), Some(3));
    assert_eq!(m.remove("b"), None);
    assert!(!m.contains_key("b"));
}

#[test]
fn context_state_reads_back_what_was_written() {
    let mut ctx = Context::new("agent");
    assert_eq!(ctx.actor_ref.id, "agent");
    assert!(ctx.get_state("k").is_none());
    ctx.set_state("k", Value::from(1));
    ctx.set_state("k", Value::from("two"));
    assert_eq!(ctx.get_state("k"), Some(Value::from("two")));
    ctx.clear_state();
    assert!(ctx.get_state("k").is_none());
    assert_eq!(Context::default().actor_ref.id, "default");
}

#[test]
fn messages_are_addressed() {
    assert_eq!(ActorRef::new("a1").id, "a1");
    let m = Message::user_input("user", "hi");
    assert_eq!((m.sender.as_str(), m.target.as_str()), ("user", "agent"));
    assert!(matches!(m.payload, Payload::UserInput(ref s) if s == "hi"));
    let r = Message::agent_response("agent", "done");
    assert_eq!(r.target, "user");
    let t = Message::tool_result("tool", "42");
    assert!(matches!(t.payload, Payload::ToolResult(ref s) if s == "42"));
    let c = Message::tool_call("agent", ToolCall::new("calc", Value::Null));
    assert!(matches!(c.payload, Payload::ToolCall(ref tc) if tc.tool_name == "calc"));
    assert_ne!(Message::user_input("u", "x").id, Message::user_input("u", "x").id);
}

#[test]
fn register_all_keeps_the_last_tool_of_a_name() {
    let mut reg: ToolRegistry<u32> = ToolRegistry::new();
    reg.register_all(vec![("a".to_string(), 1), ("b".to_string(), 2), ("a".to_string(), 3)]);
    assert_eq!(reg.get("a"), Some(&3));
    assert_eq!(reg.get("b"), Some(&2));
    assert_eq!(reg.list_tools().len(), 2);
    let mut names = reg.list_tools();
    names.sort();
    assert_eq!(names, vec!["a".to_string(), "b".to_string()]);
    let mut empty: ToolRegistry<u32> = ToolRegistry::new();
    empty.register_all(vec![]);
    assert!(empty.list_tools().is_empty());
}

#[test]
fn agent_builder_collects_parts() {
    let b: AgentBuilder<u8, &str, bool> = AgentBuilder::new();
    let (name, tools, llm, planner) = b.into_parts();
    assert_eq!((name.as_str(), tools.len(), llm, planner), ("agent", 0, None, None));
    let b: AgentBuilder<u8, &str, bool> = AgentBuilder::new().name("bot").tool(1).tool(2).llm("m").planner(true);
    let (name, tools, llm, planner) = b.into_parts();
    assert_eq!((name.as_str(), tools, llm, planner), ("bot", vec![1, 2], Some("m"), Some(true)));
}

#[test]
fn agent_builder_builds_with_default_planner_and_agent_context() {
    let b: AgentBuilder<u8, &str, bool> = AgentBuilder::new();
    let parts = b.build();
    assert_eq!(parts.name, "agent");
    assert!(parts.tools.is_empty());
    assert_eq!(parts.llm, None);
    match &parts.planner {
        PlannerChoice::RuleBased(p) => assert_eq!(p.name(), "rule_based"),
        other => panic!("{:?}", other),
    }
    assert_eq!(parts.context.actor_ref.id, "agent");
    assert_eq!(parts.context.get_state("anything"), None);
    let b: AgentBuilder<u8, &str, bool> = AgentBuilder::new().name("bot").tool(3).planner(false).llm("m");
    let parts = b.build();
    assert_eq!((parts.name.as_str(), parts.tools, parts.llm), ("bot", vec![3], Some("m")));
    assert!(matches!(parts.planner, PlannerChoice::Given(false)));
    assert_eq!(parts.context.actor_ref.id, "agent");
}
