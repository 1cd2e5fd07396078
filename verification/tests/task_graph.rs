use satori_rs_agent::{AgentError, ExecStep, Execution, TaskGraph, TaskOutput, TaskStatus};
use serde_json::Value;

fn done(name: &str) -> Value {
    let mut m = serde_json::Map::new();
    m.insert("done".to_string(), Value::String(name.to_string()));
    Value::Object(m)
}

#[test]
fn test_task_graph_basic() {
    let mut graph = TaskGraph::new();

    let node1_id = graph.add_node("task1", vec![]);
    let _node2_id = graph.add_node("task2", vec![node1_id]);

    assert_eq!(graph.node_count(), 2);

    let ready = graph.get_ready_nodes();
    assert_eq!(ready.len(), 1);
    assert_eq!(ready[0], node1_id);
}

#[test]
fn test_task_graph_no_deps() {
    let mut graph = TaskGraph::new();

    let _node1 = graph.add_node("task1", vec![]);
    let _node2 = graph.add_node("task2", vec![]);

    let ready = graph.get_ready_nodes();
    assert_eq!(ready.len(), 2);
}

#[test]
fn added_node_is_pending_without_result() {
    let mut graph = TaskGraph::default();
    let id = graph.add_node("fetch", vec![7, 8]);
    let node = graph.get_node(id).unwrap();
    assert_eq!(node.id, id);
    assert_eq!(node.name, "fetch");
    assert_eq!(node.deps, vec![7, 8]);
    assert_eq!(node.status, TaskStatus::Pending);
    assert!(node.result.is_none());
    assert!(graph.get_node(id ^ 1).is_none());
    assert_eq!((id >> 76) & 0xf, 4);
}

#[test]
fn inserting_an_existing_id_replaces_the_node() {
    let mut graph = TaskGraph::new();
    graph.insert_node(5, "a".to_string(), vec![]);
    graph.insert_node(5, "b".to_string(), vec![1]);
    assert_eq!(graph.node_count(), 1);
    assert_eq!(graph.get_node(5).unwrap().name, "b");
}

#[test]
fn dependency_on_missing_or_unfinished_task_blocks_readiness() {
    let mut graph = TaskGraph::new();
    graph.insert_node(1, "a".to_string(), vec![]);
    graph.insert_node(2, "b".to_string(), vec![1]);
    graph.insert_node(3, "c".to_string(), vec![99]);
    assert_eq!(graph.get_ready_nodes(), vec![1]);
    graph.set_status(1, TaskStatus::Running);
    assert!(graph.get_ready_nodes().is_empty());
    assert!(graph.has_pending());
    graph.set_result(1, satori_rs_agent::TaskResult { output: TaskOutput::Json(Value::from(1)), error: None });
    assert_eq!(graph.get_node(1).unwrap().status, TaskStatus::Completed);
    assert_eq!(graph.get_ready_nodes(), vec![2]);
}

#[test]
fn set_status_on_missing_task_changes_nothing() {
    let mut graph = TaskGraph::new();
    graph.set_status(42, TaskStatus::Failed);
    assert_eq!(graph.node_count(), 0);
    assert!(!graph.has_pending());
}

#[test]
fn clear_empties_the_graph() {
    let mut graph = TaskGraph::new();
    graph.add_node("x", vec![]);
    graph.clear();
    assert_eq!(graph.node_count(), 0);
    assert!(graph.get_ready_nodes().is_empty());
}

fn run_all(graph: &mut TaskGraph, fail_on: &str) -> (Vec<String>, Vec<satori_rs_agent::TaskResult>) {
    let mut ex = Execution::new();
    let mut order = Vec::new();
    loop {
        match graph.next_step(&mut ex) {
            ExecStep::Run { id, name } => {
                let node = graph.get_node(id).unwrap();
                assert_eq!(node.status, TaskStatus::Running);
                for dep in &node.deps {
                    assert_eq!(graph.get_node(*dep).unwrap().status, TaskStatus::Completed);
                }
                let outcome = if name == fail_on {
                    Err(AgentError::HandleError("boom".to_string()))
                } else {
                    Ok(done(&name))
                };
                order.push(name);
                graph.record_outcome(&mut ex, id, outcome);
            }
            ExecStep::Finished => break,
        }
    }
    (order, ex.into_results())
}

#[test]
fn execution_runs_tasks_in_dependency_order() {
    let mut graph = TaskGraph::new();
    graph.insert_node(1, "first".to_string(), vec![]);
    graph.insert_node(2, "second".to_string(), vec![1]);
    graph.insert_node(3, "third".to_string(), vec![2, 1]);
    graph.insert_node(4, "also_first".to_string(), vec![]);
    let (order, results) = run_all(&mut graph, "");
    let mut first_round = vec![order[0].clone(), order[1].clone()];
    first_round.sort();
    assert_eq!(first_round, vec!["also_first", "first"]);
    assert_eq!(&order[2..], &["second", "third"]);
    assert_eq!(results.len(), 4);
    assert_eq!(results[2].output, TaskOutput::Json(done("second")));
    assert!(!graph.has_pending());
    assert_eq!(graph.get_all_results().len(), 4);
}

#[test]
fn failed_task_is_completed_with_its_error() {
    let mut graph = TaskGraph::new();
    graph.insert_node(1, "bad".to_string(), vec![]);
    graph.insert_node(2, "after".to_string(), vec![1]);
    let (order, results) = run_all(&mut graph, "bad");
    assert_eq!(order, vec!["bad", "after"]);
    assert_eq!(results[0].error.as_deref(), Some("Message handling failed: boom"));
    assert_eq!(results[0].output, TaskOutput::Null);
    assert_eq!(graph.get_node(1).unwrap().status, TaskStatus::Completed);
}

#[test]
fn execution_stops_when_nothing_is_ready() {
    let mut graph = TaskGraph::new();
    graph.insert_node(1, "orphan".to_string(), vec![77]);
    graph.insert_node(2, "free".to_string(), vec![]);
    let (order, results) = run_all(&mut graph, "");
    assert_eq!(order, vec!["free"]);
    assert_eq!(results.len(), 1);
    assert!(graph.has_pending());
    assert_eq!(graph.get_node(1).unwrap().status, TaskStatus::Pending);
}

#[test]
fn finishing_one_task_leaves_another_ready() {
    let mut graph = TaskGraph::new();
    graph.insert_node(1, "a".to_string(), vec![]);
    graph.insert_node(2, "b".to_string(), vec![]);
    graph.set_result(1, satori_rs_agent::TaskResult { output: TaskOutput::Null, error: None });
    assert_eq!(graph.get_ready_nodes(), vec![2]);
}

#[test]
fn task_waiting_on_a_running_task_never_runs() {
    let mut graph = TaskGraph::new();
    graph.insert_node(1, "busy".to_string(), vec![]);
    graph.insert_node(2, "waiting".to_string(), vec![1]);
    graph.insert_node(3, "free".to_string(), vec![]);
    graph.set_status(1, TaskStatus::Running);
    let (order, results) = run_all(&mut graph, "");
    assert_eq!(order, vec!["free"]);
    assert_eq!(results.len(), 1);
    assert_eq!(graph.get_node(2).unwrap().status, TaskStatus::Pending);
    assert_eq!(graph.get_node(1).unwrap().status, TaskStatus::Running);
    assert!(graph.get_ready_nodes().is_empty());
}
