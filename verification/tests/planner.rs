use satori_rs_agent::planner::{extract_two_numbers, parse_calculation_input};
use satori_rs_agent::{CalcOperation, RuleBasedPlanner, ToolArguments};

fn numbers(input: &str) -> Option<(f64, f64)> {
    extract_two_numbers(input).map(|(a, b)| (a.parse::<f64>().unwrap(), b.parse::<f64>().unwrap()))
}

#[test]
fn test_planner_search() {
    let planner = RuleBasedPlanner::new();
    let result = planner.plan("搜索 Rust Tokio").unwrap();
    assert!(result.is_some());

    let result = result.unwrap();
    assert_eq!(result.tool_name, "search");
}

#[test]
fn test_planner_calculator() {
    let planner = RuleBasedPlanner::new();
    let result = planner.plan("计算 123 * 456").unwrap();
    assert!(result.is_some());

    let result = result.unwrap();
    assert_eq!(result.tool_name, "calculator");
}

#[test]
fn test_planner_no_match() {
    let planner = RuleBasedPlanner::new();
    let result = planner.plan("Hello world").unwrap();
    assert!(result.is_none());
}

#[test]
fn test_extract_numbers() {
    assert_eq!(numbers("计算 10 * 20"), Some((10.0, 20.0)));
    assert_eq!(numbers("10 + 20"), Some((10.0, 20.0)));
    assert_eq!(numbers("100 - 30"), Some((100.0, 30.0)));
    assert_eq!(numbers("50 / 5"), Some((50.0, 5.0)));
}

#[test]
fn planner_name_is_rule_based() {
    assert_eq!(RuleBasedPlanner::new().name(), "rule_based");
    assert_eq!(RuleBasedPlanner::default().name(), "rule_based");
}

#[test]
fn search_query_keeps_letters_digits_and_spaces_trimmed() {
    let plan = RuleBasedPlanner::new().plan("  搜索: Rust, Tokio!  ").unwrap().unwrap();
    assert_eq!(plan.reasoning, "Detected search intent");
    match plan.arguments {
        ToolArguments::Search { query } => assert_eq!(query, "搜索 Rust Tokio"),
        other => panic!("unexpected arguments {:?}", other),
    }
}

#[test]
fn search_keyword_is_case_insensitive() {
    let plan = RuleBasedPlanner::new().plan("SEARCH the docs").unwrap().unwrap();
    assert_eq!(plan.tool_name, "search");
    match plan.arguments {
        ToolArguments::Search { query } => assert_eq!(query, "SEARCH the docs"),
        other => panic!("unexpected arguments {:?}", other),
    }
}

#[test]
fn search_wins_over_calculation() {
    let plan = RuleBasedPlanner::new().plan("search 1 + 2").unwrap().unwrap();
    assert_eq!(plan.tool_name, "search");
}

#[test]
fn calculation_plan_carries_operation_and_operands() {
    let plan = RuleBasedPlanner::new().plan("计算 123 * 456").unwrap().unwrap();
    assert_eq!(plan.reasoning, "Detected calculation intent");
    match plan.arguments {
        ToolArguments::Calculation { operation, a, b } => {
            assert_eq!(operation, CalcOperation::Multiply);
            assert_eq!(a, "123");
            assert_eq!(b, "456");
        }
        other => panic!("unexpected arguments {:?}", other),
    }
}

#[test]
fn operation_priority_is_multiply_add_subtract_divide() {
    let op = |s: &str| parse_calculation_input(s).map(|(o, _, _)| o);
    assert_eq!(op("2 * 3 + 4"), Some(CalcOperation::Multiply));
    assert_eq!(op("2 + 3 - 4"), Some(CalcOperation::Add));
    assert_eq!(op("8 - 3"), Some(CalcOperation::Subtract));
    assert_eq!(op("8 / 2"), Some(CalcOperation::Divide));
    assert_eq!(op("3 乘 4"), Some(CalcOperation::Multiply));
    assert_eq!(op("3 加 4"), Some(CalcOperation::Add));
    assert_eq!(op("3 减 4"), Some(CalcOperation::Subtract));
    assert_eq!(op("3 除 4"), Some(CalcOperation::Divide));
}

#[test]
fn calculation_needs_two_numbers() {
    assert_eq!(parse_calculation_input("计算 10 *"), None);
    assert!(RuleBasedPlanner::new().plan("计算 10 *").unwrap().is_none());
    assert_eq!(parse_calculation_input("10 20"), None);
}

#[test]
fn number_extraction_edge_cases() {
    assert_eq!(numbers("1.5 + 2.25"), Some((1.5, 2.25)));
    assert_eq!(numbers("only 7"), None);
    assert_eq!(numbers("1.2.3 + 4 + 5"), Some((4.0, 5.0)));
    assert_eq!(numbers(". 3 . 4"), Some((3.0, 4.0)));
    assert_eq!(numbers("-3 - -4"), Some((3.0, 4.0)));
    assert_eq!(extract_two_numbers("7. + .5"), Some(("7.".to_string(), ".5".to_string())));
    assert_eq!(numbers("7. + .5"), Some((7.0, 0.5)));
    assert_eq!(extract_two_numbers(""), None);
}
