//! A graph of named tasks with dependencies, and the scheduling decisions
//! of running it: which tasks are ready, which task runs next, and what a
//! finished task leaves behind.

use vstd::prelude::*;
use vstd::string::*;
use serde_json::Value;
use crate::error::AgentError;
use crate::ids::random_uuid;
use crate::json::clone_value;
use std::collections::HashMap;
use vstd::std_specs::hash::spec_hash_map_iter;
use vstd::std_specs::iter::IteratorSpec;

verus! {

broadcast use vstd::std_specs::hash::group_hash_axioms;

/// The life cycle of a task.
#[derive(Debug, Clone, Copy, PartialEq, Eq, Structural)]
pub enum TaskStatus {
    Pending,
    Running,
    Completed,
    Failed,
}

/// The output of a task: the JSON null, or a JSON value that the task gave.
#[derive(Debug, PartialEq)]
pub enum TaskOutput {
    /// The JSON null, the output of a task that failed.
    Null,
    /// The JSON value a task gave.
    Json(Value),
}

impl TaskOutput {
    /// A copy of the output.
    pub fn copy(&self) -> (r: TaskOutput)
        ensures
            r == *self,
    {
        match self {
            TaskOutput::Null => TaskOutput::Null,
            TaskOutput::Json(v) => TaskOutput::Json(clone_value(v)),
        }
    }
}

/// What a task produced: its output, or the text of the error it failed with.
#[derive(Debug)]
pub struct TaskResult {
    pub output: TaskOutput,
    pub error: Option<String>,
}

/// The abstract contents of a task result.
pub struct ResultView {
    pub output: TaskOutput,
    pub error: Option<Seq<char>>,
}

impl View for TaskResult {
    type V = ResultView;

    open spec fn view(&self) -> ResultView {
        ResultView {
            output: self.output,
            error: match self.error {
                Some(e) => Some(e@),
                None => None,
            },
        }
    }
}

impl TaskResult {
    /// A copy of the result.
    pub fn copy(&self) -> (r: TaskResult)
        ensures
            r@ == self@,
    {
        let error = match &self.error {
            Some(e) => Some(e.clone()),
            None => None,
        };
        TaskResult { output: self.output.copy(), error }
    }
}

/// The abstract contents of an optional task result.
pub open spec fn result_view(r: Option<TaskResult>) -> Option<ResultView> {
    match r {
        Some(t) => Some(t@),
        None => None,
    }
}

/// A task of the graph.
#[derive(Debug)]
pub struct TaskNode {
    pub id: u128,
    pub name: String,
    pub deps: Vec<u128>,
    pub status: TaskStatus,
    pub result: Option<TaskResult>,
}

/// The abstract contents of a task.
pub struct NodeView {
    pub id: u128,
    pub name: Seq<char>,
    pub deps: Seq<u128>,
    pub status: TaskStatus,
    pub result: Option<ResultView>,
}

impl View for TaskNode {
    type V = NodeView;

    open spec fn view(&self) -> NodeView {
        NodeView {
            id: self.id,
            name: self.name@,
            deps: self.deps@,
            status: self.status,
            result: result_view(self.result),
        }
    }
}

impl TaskNode {
    /// A copy of the task.
    pub fn copy(&self) -> (r: TaskNode)
        ensures
            r@ == self@,
    {
        let mut deps: Vec<u128> = Vec::new();
        let mut i: usize = 0;
        while i < self.deps.len()
            invariant
                i <= self.deps.len(),
                deps@ == self.deps@.take(i as int),
            decreases self.deps.len() - i,
        {
            deps.push(self.deps[i]);
            assert(deps@ =~= self.deps@.take(i + 1));
            i = i + 1;
        }
        assert(deps@ =~= self.deps@);
        let result = match &self.result {
            Some(t) => Some(t.copy()),
            None => None,
        };
        TaskNode { id: self.id, name: self.name.clone(), deps, status: self.status, result }
    }
}

/// A new task: pending, with no result.
pub open spec fn new_node(id: u128, name: Seq<char>, deps: Seq<u128>) -> NodeView {
    NodeView { id, name, deps, status: TaskStatus::Pending, result: None }
}

/// A task with another status.
pub open spec fn with_status(n: NodeView, status: TaskStatus) -> NodeView {
    NodeView { status, ..n }
}

/// A task that finished with a result.
pub open spec fn with_result(n: NodeView, result: ResultView) -> NodeView {
    NodeView { status: TaskStatus::Completed, result: Some(result), ..n }
}

/// A task is ready when it is pending and every task it depends on is in
/// the graph and completed.
pub open spec fn is_ready(g: Map<u128, NodeView>, id: u128) -> bool {
    &&& g.dom().contains(id)
    &&& g[id].status == TaskStatus::Pending
    &&& forall|k: int|
        0 <= k < g[id].deps.len() ==> g.dom().contains(#[trigger] g[id].deps[k])
            && g[g[id].deps[k]].status == TaskStatus::Completed
}

/// Some task is pending or running.
pub open spec fn has_unfinished(g: Map<u128, NodeView>) -> bool {
    exists|id: u128| g.dom().contains(id) && #[trigger] unfinished_status(g[id].status)
}

/// A status that is pending or running.
pub open spec fn unfinished_status(s: TaskStatus) -> bool {
    s == TaskStatus::Pending || s == TaskStatus::Running
}

/// The results of the tasks that have one, in the order of the sequence.
pub open spec fn results_of(s: Seq<NodeView>) -> Seq<ResultView>
    decreases s.len(),
{
    if s.len() == 0 {
        Seq::empty()
    } else {
        match s.last().result {
            Some(r) => results_of(s.drop_last()).push(r),
            None => results_of(s.drop_last()),
        }
    }
}

/// Collecting results keeps every result, failed or not: the collected
/// results of a sequence of tasks are as many as the tasks that have a
/// result, each task's result is among them, and each of them is the result
/// of one of the tasks.
pub proof fn law_results_keep_every_result(s: Seq<NodeView>)
    ensures
        results_of(s).len() == s.filter(|n: NodeView| n.result is Some).len(),
        forall|i: int|
            0 <= i < s.len() && (#[trigger] s[i]).result is Some ==> results_of(s).contains(s[i].result->0),
        forall|j: int|
            0 <= j < results_of(s).len() ==> exists|i: int|
                0 <= i < s.len() && s[i].result == Some(#[trigger] results_of(s)[j]),
    decreases s.len(),
{
    reveal(Seq::filter);
    if s.len() > 0 {
        let init = s.drop_last();
        law_results_keep_every_result(init);
        let r0 = results_of(init);
        assert forall|i: int|
            0 <= i < s.len() && (#[trigger] s[i]).result is Some implies results_of(s).contains(s[i].result->0) by {
            if i < s.len() - 1 {
                assert(init[i] == s[i]);
                let k = choose|k: int| 0 <= k < r0.len() && r0[k] == s[i].result->0;
                match s.last().result {
                    Some(r) => assert(results_of(s)[k] == r0[k]),
                    None => {},
                }
            } else {
                assert(results_of(s)[results_of(s).len() - 1] == s[i].result->0);
            }
        }
        assert forall|j: int|
            0 <= j < results_of(s).len() implies exists|i: int|
                0 <= i < s.len() && s[i].result == Some(#[trigger] results_of(s)[j]) by {
            if j < r0.len() {
                assert(results_of(s)[j] == r0[j]);
                let i = choose|i: int| 0 <= i < init.len() && init[i].result == Some(r0[j]);
                assert(s[i] == init[i]);
            } else {
                assert(s[s.len() - 1].result == Some(results_of(s)[j]));
            }
        }
    }
}

/// The results collected over an ordering of a graph's tasks are the results
/// of its tasks: each task's result is among them, and each of them is the
/// result of a task.
proof fn lemma_collected_results(g: Map<u128, NodeView>, ids: Seq<u128>, rv: Seq<ResultView>)
    requires
        forall|j: int| 0 <= j < ids.len() ==> g.dom().contains(#[trigger] ids[j]),
        forall|id: u128| g.dom().contains(id) ==> exists|j: int| 0 <= j < ids.len() && #[trigger] ids[j] == id,
        rv == results_of(ids.map_values(|id: u128| g[id])),
    ensures
        forall|id: u128|
            g.dom().contains(id) && (#[trigger] g[id]).result is Some ==> exists|i: int|
                0 <= i < rv.len() && rv[i] == g[id].result->0,
        forall|i: int|
            #![trigger rv[i]]
            0 <= i < rv.len() ==> exists|id: u128| g.dom().contains(id) && g[id].result == Some(rv[i]),
{
    let ns = ids.map_values(|id: u128| g[id]);
    law_results_keep_every_result(ns);
    assert forall|id: u128| g.dom().contains(id) && (#[trigger] g[id]).result is Some implies exists|i: int|
        0 <= i < rv.len() && rv[i] == g[id].result->0 by {
        let j = choose|j: int| 0 <= j < ids.len() && #[trigger] ids[j] == id;
        assert(ns[j] == g[id]);
        assert(results_of(ns).contains(ns[j].result->0));
    }
    assert forall|i: int| #![trigger rv[i]] 0 <= i < rv.len() implies exists|id: u128|
        g.dom().contains(id) && g[id].result == Some(rv[i]) by {
        let j = choose|j: int| 0 <= j < ns.len() && ns[j].result == Some(#[trigger] results_of(ns)[i]);
        let id = ids[j];
        assert(ns[j] == g[id]);
        assert(g.dom().contains(id));
    }
}

/// Filtering the images of a sequence keeps as many items as filtering the
/// sequence by the condition on their images.
proof fn lemma_filter_map_len<A, B>(s: Seq<A>, f: spec_fn(A) -> B, p: spec_fn(B) -> bool)
    ensures
        s.map_values(f).filter(p).len() == s.filter(|x: A| p(f(x))).len(),
    decreases s.len(),
{
    reveal(Seq::filter);
    if s.len() > 0 {
        lemma_filter_map_len(s.drop_last(), f, p);
        assert(s.map_values(f).drop_last() =~= s.drop_last().map_values(f));
    }
}

/// Filtering keeps a sequence free of duplicates.
proof fn lemma_filter_no_duplicates(s: Seq<u128>, p: spec_fn(u128) -> bool)
    requires
        s.no_duplicates(),
    ensures
        s.filter(p).no_duplicates(),
    decreases s.len(),
{
    reveal(Seq::filter);
    if s.len() > 0 {
        let init = s.drop_last();
        assert(init.no_duplicates());
        lemma_filter_no_duplicates(init, p);
        if p(s.last()) {
            if init.filter(p).contains(s.last()) {
                init.lemma_filter_contains_rev(p, s.last());
                let k = choose|k: int| 0 <= k < init.len() && init[k] == s.last();
                assert(s[k] == s[s.len() - 1]);
            }
            let t = init.filter(p).push(s.last());
            assert forall|a: int, b: int| 0 <= a < b < t.len() implies t[a] != t[b] by {
                if b == t.len() - 1 {
                    assert(init.filter(p).contains(t[a]));
                }
            }
        }
    }
}

/// Over an ordering of a graph's tasks, each once, as many results are
/// collected as the graph has tasks with a result.
proof fn lemma_result_count(g: Map<u128, NodeView>, ids: Seq<u128>)
    requires
        ids.no_duplicates(),
        ids.to_set() == g.dom(),
    ensures
        results_of(ids.map_values(|id: u128| g[id])).len() == g.dom().filter(
            |id: u128| g[id].result is Some,
        ).len(),
{
    let f = |id: u128| g[id];
    let has = |n: NodeView| n.result is Some;
    let q = |id: u128| g[id].result is Some;
    let ns = ids.map_values(f);
    law_results_keep_every_result(ns);
    assert(ns.filter(|n: NodeView| n.result is Some) == ns.filter(has));
    lemma_filter_map_len(ids, f, has);
    assert(ids.filter(|x: u128| has(f(x))) == ids.filter(q)) by {
        assert((|x: u128| has(f(x))) =~= q);
    }
    let t = ids.filter(q);
    lemma_filter_no_duplicates(ids, q);
    assert forall|x: u128| t.to_set().contains(x) <==> g.dom().filter(q).contains(x) by {
        if t.contains(x) {
            ids.lemma_filter_contains_rev(q, x);
            let k = choose|k: int| 0 <= k < t.len() && t[k] == x;
            ids.lemma_filter_pred(q, k);
            assert(ids.to_set().contains(x));
        }
        if g.dom().filter(q).contains(x) {
            assert(ids.to_set().contains(x));
            let k = choose|k: int| 0 <= k < ids.len() && ids[k] == x;
            ids.lemma_filter_contains(q, k);
        }
    }
    assert(t.to_set() =~= g.dom().filter(q));
    t.unique_seq_to_set();
}

/// A graph of tasks, each known by a 128-bit id.
#[derive(Debug)]
pub struct TaskGraph {
    nodes: HashMap<u128, TaskNode>,
}

impl View for TaskGraph {
    type V = Map<u128, NodeView>;

    /// The tasks by id.
    closed spec fn view(&self) -> Map<u128, NodeView> {
        self.nodes@.map_values(|n: TaskNode| n@)
    }
}

impl TaskGraph {
    /// Each task is stored under its own id.
    #[verifier::type_invariant]
    closed spec fn wf(&self) -> bool {
        forall|id: u128| #[trigger] self.nodes@.contains_key(id) ==> self.nodes@[id].id == id
    }

    /// An empty graph.
    pub fn new() -> (r: Self)
        ensures
            r@ == Map::<u128, NodeView>::empty(),
    {
        let r = TaskGraph { nodes: HashMap::new() };
        assert(r@ =~= Map::<u128, NodeView>::empty());
        r
    }

    /// Stores `node` under its id, in place of the task stored there before.
    fn put(&mut self, node: TaskNode)
        ensures
            final(self)@ == old(self)@.insert(node.id, node@),
    {
        proof {
            use_type_invariant(&*self);
        }
        let ghost v = node@;
        let mut nodes: HashMap<u128, TaskNode> = HashMap::new();
        std::mem::swap(&mut nodes, &mut self.nodes);
        nodes.insert(node.id, node);
        self.nodes = nodes;
        assert(self@ =~= old(self)@.insert(v.id, v));
    }

    /// Puts a pending task `id` without result into the graph, in place of a
    /// task with the same id if there is one.
    pub fn insert_node(&mut self, id: u128, name: String, deps: Vec<u128>)
        ensures
            final(self)@ == old(self)@.insert(id, new_node(id, name@, deps@)),
    {
        let node = TaskNode { id, name, deps, status: TaskStatus::Pending, result: None };
        self.put(node);
    }

    /// Adds a pending task named `name` that depends on `deps`, under a fresh
    /// random id, and returns that id.
    pub fn add_node(&mut self, name: &str, deps: Vec<u128>) -> (r: u128)
        ensures
            (r >> 76u128) & 0xfu128 == 4u128,
            (r >> 62u128) & 3u128 == 2u128,
            final(self)@ == old(self)@.insert(r, new_node(r, name@, deps@)),
    {
        let id = random_uuid();
        self.insert_node(id, String::from_str(name), deps);
        id
    }

    /// A copy of the task `id`, if it is in the graph.
    pub fn get_node(&self, id: u128) -> (r: Option<TaskNode>)
        ensures
            match r {
                Some(n) => self@.dom().contains(id) && n@ == self@[id] && n.id == id,
                None => !self@.dom().contains(id),
            },
    {
        proof {
            use_type_invariant(self);
        }
        match self.nodes.get(&id) {
            Some(n) => Some(n.copy()),
            None => None,
        }
    }

    /// Sets the status of the task `id`; a graph without that task is left
    /// as it is.
    pub fn set_status(&mut self, id: u128, status: TaskStatus)
        ensures
            final(self)@ == if old(self)@.dom().contains(id) {
                old(self)@.insert(id, with_status(old(self)@[id], status))
            } else {
                old(self)@
            },
    {
        proof {
            use_type_invariant(&*self);
        }
        match self.nodes.get(&id) {
            Some(n) => {
                let node = TaskNode { status, ..n.copy() };
                self.put(node);
            },
            None => {},
        }
    }

    /// Records the result of the task `id` and marks it completed; a graph
    /// without that task is left as it is.
    pub fn set_result(&mut self, id: u128, result: TaskResult)
        ensures
            final(self)@ == if old(self)@.dom().contains(id) {
                old(self)@.insert(id, with_result(old(self)@[id], result@))
            } else {
                old(self)@
            },
    {
        proof {
            use_type_invariant(&*self);
        }
        match self.nodes.get(&id) {
            Some(n) => {
                let node = TaskNode { status: TaskStatus::Completed, result: Some(result), ..n.copy() };
                self.put(node);
            },
            None => {},
        }
    }

    /// Whether every task in `deps` is in the graph and completed.
    fn deps_completed(&self, deps: &Vec<u128>) -> (r: bool)
        ensures
            r == forall|k: int|
                0 <= k < deps@.len() ==> self@.dom().contains(#[trigger] deps@[k])
                    && self@[deps@[k]].status == TaskStatus::Completed,
    {
        let mut k: usize = 0;
        while k < deps.len()
            invariant
                k <= deps@.len(),
                forall|m: int|
                    0 <= m < k ==> self@.dom().contains(#[trigger] deps@[m])
                        && self@[deps@[m]].status == TaskStatus::Completed,
            decreases deps@.len() - k,
        {
            match self.nodes.get(&deps[k]) {
                Some(n) => {
                    if n.status != TaskStatus::Completed {
                        return false;
                    }
                },
                None => {
                    return false;
                },
            }
            k = k + 1;
        }
        true
    }

    /// The ids of the ready tasks, each once.
    pub fn get_ready_nodes(&self) -> (r: Vec<u128>)
        ensures
            r@.no_duplicates(),
            forall|id: u128| r@.contains(id) <==> is_ready(self@, id),
    {
        let mut ready: Vec<u128> = Vec::new();
        let ghost items = spec_hash_map_iter(&self.nodes).remaining();
        for (k, n) in it: self.nodes.iter()
            invariant
                it.seq() == items,
                items.no_duplicates(),
                ready@.no_duplicates(),
                forall|id: u128|
                    ready@.contains(id) <==> exists|j: int|
                        0 <= j < it.index() && *items[j].0 == id && is_ready(self@, id),
        {
            assert(items[it.index() as int] == (k, n));
            assert(self@[*k] == n@);
            let ghost old_ready = ready@;
            if n.status == TaskStatus::Pending && self.deps_completed(&n.deps) {
                assert(is_ready(self@, *k));
                assert(!old_ready.contains(*k)) by {
                    if old_ready.contains(*k) {
                        let j = choose|j: int| 0 <= j < it.index() && *items[j].0 == *k && is_ready(self@, *k);
                        assert(self.nodes@[*items[j].0] == *items[j].1);
                        assert(items[j] == items[it.index() as int]);
                    }
                }
                ready.push(*k);
                assert(ready@[ready@.len() - 1] == *k);
            } else {
                assert(!is_ready(self@, *k));
            }
            assert(is_ready(self@, *k) ==> ready@ == old_ready.push(*k));
            assert(!is_ready(self@, *k) ==> ready@ == old_ready);
            assert forall|id: u128|
                ready@.contains(id) <==> exists|j: int|
                    0 <= j < it.index() + 1 && *items[j].0 == id && is_ready(self@, id) by {
                let idx = it.index() as int;
                if ready@.contains(id) {
                    if id == *k && is_ready(self@, *k) {
                        assert(0 <= idx < idx + 1 && *items[idx].0 == id && is_ready(self@, id));
                    } else {
                        let m = choose|m: int| 0 <= m < ready@.len() && ready@[m] == id;
                        assert(old_ready[m] == id);
                        assert(old_ready.contains(id));
                        let j = choose|j: int| 0 <= j < idx && *items[j].0 == id && is_ready(self@, id);
                        assert(0 <= j < idx + 1 && *items[j].0 == id && is_ready(self@, id));
                    }
                }
                if exists|j: int| 0 <= j < idx + 1 && *items[j].0 == id && is_ready(self@, id) {
                    let j = choose|j: int| 0 <= j < idx + 1 && *items[j].0 == id && is_ready(self@, id);
                    if j < idx {
                        assert(old_ready.contains(id));
                        let m = choose|m: int| 0 <= m < old_ready.len() && old_ready[m] == id;
                        assert(ready@[m] == id);
                    } else {
                        assert(ready@[ready@.len() - 1] == id);
                    }
                }
            }
        }
        proof {
            assert forall|id: u128| is_ready(self@, id) implies ready@.contains(id) by {
                assert(items.contains((&id, &self.nodes@[id])));
                let j = choose|j: int| 0 <= j < items.len() && items[j] == (&id, &self.nodes@[id]);
                assert(*items[j].0 == id);
            }
        }
        ready
    }

    /// Whether some task is pending or running.
    pub fn has_pending(&self) -> (r: bool)
        ensures
            r == has_unfinished(self@),
    {
        let mut found = false;
        let ghost items = spec_hash_map_iter(&self.nodes).remaining();
        for (k, n) in it: self.nodes.iter()
            invariant
                it.seq() == items,
                found == exists|j: int| 0 <= j < it.index() && unfinished_status(#[trigger] items[j].1.status),
        {
            assert(items[it.index() as int] == (k, n));
            if n.status == TaskStatus::Pending || n.status == TaskStatus::Running {
                found = true;
            }
        }
        proof {
            if found {
                let j = choose|j: int| 0 <= j < items.len() && unfinished_status(#[trigger] items[j].1.status);
                let id = *items[j].0;
                assert(self@.dom().contains(id) && self@[id].status == items[j].1.status);
            }
            if has_unfinished(self@) {
                let id = choose|id: u128| self@.dom().contains(id) && #[trigger] unfinished_status(self@[id].status);
                assert(items.contains((&id, &self.nodes@[id])));
                let j = choose|j: int| 0 <= j < items.len() && items[j] == (&id, &self.nodes@[id]);
                assert(unfinished_status(items[j].1.status));
            }
        }
        found
    }

    /// Removes every task.
    pub fn clear(&mut self)
        ensures
            final(self)@ == Map::<u128, NodeView>::empty(),
    {
        self.nodes = HashMap::new();
        assert(self@ =~= Map::<u128, NodeView>::empty());
    }

    /// Number of tasks.
    pub fn node_count(&self) -> (r: usize)
        ensures
            r == self@.len(),
    {
        assert(self@.dom() =~= self.nodes@.dom());
        self.nodes.len()
    }

    /// Copies of the results of the tasks that have one, the tasks taken in
    /// some order, each once.
    pub fn get_all_results(&self) -> (r: Vec<TaskResult>)
        ensures
            exists|ids: Seq<u128>|
                #![trigger ids.to_set()]
                {
                    &&& ids.no_duplicates()
                    &&& ids.to_set() == self@.dom()
                    &&& r@.map_values(|t: TaskResult| t@) == results_of(ids.map_values(|id: u128| self@[id]))
                },
            r@.len() == self@.dom().filter(|id: u128| self@[id].result is Some).len(),
            forall|id: u128|
                #![trigger self@[id]]
                self@.dom().contains(id) && self@[id].result is Some ==> exists|i: int|
                    0 <= i < r@.len() && r@[i]@ == self@[id].result->0,
            forall|i: int|
                #![trigger r@[i]]
                0 <= i < r@.len() ==> exists|id: u128| self@.dom().contains(id) && self@[id].result == Some(r@[i]@),
    {
        let mut r: Vec<TaskResult> = Vec::new();
        let ghost items = spec_hash_map_iter(&self.nodes).remaining();
        let ghost ids = items.map_values(|p: (&u128, &TaskNode)| *p.0);
        for (k, n) in it: self.nodes.iter()
            invariant
                it.seq() == items,
                ids == items.map_values(|p: (&u128, &TaskNode)| *p.0),
                forall|j: int| 0 <= j < items.len() ==> self@[ids[j]] == (#[trigger] items[j]).1@,
                r@.map_values(|t: TaskResult| t@) == results_of(
                    ids.take(it.index() as int).map_values(|id: u128| self@[id]),
                ),
        {
            let ghost i = it.index() as int;
            assert(items[i] == (k, n));
            assert(ids.take(i + 1).map_values(|id: u128| self@[id]).drop_last() =~= ids.take(i).map_values(
                |id: u128| self@[id],
            ));
            assert(ids.take(i + 1).map_values(|id: u128| self@[id]).last() == n@);
            match &n.result {
                Some(t) => {
                    let c = t.copy();
                    r.push(c);
                    assert(r@.map_values(|t: TaskResult| t@) =~= results_of(
                        ids.take(i).map_values(|id: u128| self@[id]),
                    ).push(c@));
                },
                None => {},
            }
        }
        proof {
            assert(ids.take(ids.len() as int) =~= ids);
            assert forall|a: int, b: int| 0 <= a < b < ids.len() implies ids[a] != ids[b] by {
                if ids[a] == ids[b] {
                    assert(items[a] == items[b]);
                }
            }
            assert forall|id: u128| ids.to_set().contains(id) <==> self@.dom().contains(id) by {
                if self@.dom().contains(id) {
                    assert(items.contains((&id, &self.nodes@[id])));
                    let j = choose|j: int| 0 <= j < items.len() && items[j] == (&id, &self.nodes@[id]);
                    assert(ids[j] == id);
                }
                if ids.to_set().contains(id) {
                    let j = choose|j: int| 0 <= j < ids.len() && ids[j] == id;
                    assert(self.nodes@.contains_key(*items[j].0));
                }
            }
            assert(ids.to_set() =~= self@.dom());
            let rv = r@.map_values(|t: TaskResult| t@);
            assert forall|j: int| 0 <= j < ids.len() implies self@.dom().contains(#[trigger] ids[j]) by {
                assert(ids.to_set().contains(ids[j]));
            }
            assert forall|id: u128| self@.dom().contains(id) implies exists|j: int|
                0 <= j < ids.len() && #[trigger] ids[j] == id by {
                assert(ids.to_set().contains(id));
            }
            lemma_collected_results(self@, ids, rv);
            lemma_result_count(self@, ids);
            assert forall|id: u128| #![trigger self@[id]] self@.dom().contains(id) && self@[id].result is Some implies exists|i: int|
                0 <= i < r@.len() && r@[i]@ == self@[id].result->0 by {
                let i = choose|i: int| 0 <= i < rv.len() && rv[i] == self@[id].result->0;
                assert(rv[i] == r@[i]@);
            }
            assert forall|i: int| #![trigger r@[i]] 0 <= i < r@.len() implies exists|id: u128|
                self@.dom().contains(id) && self@[id].result == Some(r@[i]@) by {
                assert(rv[i] == r@[i]@);
            }
        }
        r
    }
}

/// The graph after the task `id` started running.
pub open spec fn started(g: Map<u128, NodeView>, id: u128) -> Map<u128, NodeView> {
    if g.dom().contains(id) {
        g.insert(id, with_status(g[id], TaskStatus::Running))
    } else {
        g
    }
}

/// The graph after the task `id` finished with `result`.
pub open spec fn finished(g: Map<u128, NodeView>, id: u128, result: ResultView) -> Map<u128, NodeView> {
    if g.dom().contains(id) {
        g.insert(id, with_result(g[id], result))
    } else {
        g
    }
}

/// The name of the task `id`, or the empty text when the graph lacks it.
pub open spec fn name_in(g: Map<u128, NodeView>, id: u128) -> Seq<char> {
    if g.dom().contains(id) {
        g[id].name
    } else {
        Seq::empty()
    }
}

/// Some task is ready.
pub open spec fn some_ready(g: Map<u128, NodeView>) -> bool {
    exists|id: u128| is_ready(g, id)
}

/// A task result that records what the executor answered: its output, or
/// the JSON null with the text of its error.
pub open spec fn records_outcome(outcome: Result<Value, AgentError>, r: ResultView) -> bool {
    match outcome {
        Ok(v) => r.output == TaskOutput::Json(v) && r.error == None::<Seq<char>>,
        Err(e) => r.output == TaskOutput::Null && r.error == Some(e.text()),
    }
}

/// A graph has unfinished work exactly when one of its tasks is pending or
/// running: a running task counts as much as a pending one, and completed or
/// failed tasks never do.
pub proof fn law_unfinished_work(g: Map<u128, NodeView>)
    ensures
        has_unfinished(g) <==> exists|id: u128|
            g.dom().contains(id) && (g[id].status == TaskStatus::Pending || g[id].status
                == TaskStatus::Running),
        forall|id: u128|
            g.dom().contains(id) && g[id].status == TaskStatus::Running ==> has_unfinished(g),
        forall|id: u128|
            g.dom().contains(id) && g[id].status == TaskStatus::Pending ==> has_unfinished(g),
        (forall|id: u128|
            g.dom().contains(id) ==> g[id].status == TaskStatus::Completed || g[id].status
                == TaskStatus::Failed) ==> !has_unfinished(g),
{
    assert forall|id: u128|
        g.dom().contains(id) && g[id].status == TaskStatus::Running implies has_unfinished(g) by {
        assert(unfinished_status(g[id].status));
    }
    assert forall|id: u128|
        g.dom().contains(id) && g[id].status == TaskStatus::Pending implies has_unfinished(g) by {
        assert(unfinished_status(g[id].status));
    }
}

/// A task added without dependencies is ready at once.
pub proof fn law_task_without_deps_is_ready(g: Map<u128, NodeView>, id: u128, name: Seq<char>)
    ensures
        is_ready(g.insert(id, new_node(id, name, Seq::empty())), id),
{
}

/// A task that finished is completed with its result, is neither ready nor
/// unfinished, and no other task changed.
pub proof fn law_finished_task_is_done(g: Map<u128, NodeView>, id: u128, result: ResultView)
    requires
        g.dom().contains(id),
    ensures
        finished(g, id, result).dom() == g.dom(),
        finished(g, id, result)[id].status == TaskStatus::Completed,
        finished(g, id, result)[id].result == Some(result),
        !is_ready(finished(g, id, result), id),
        !unfinished_ids(finished(g, id, result)).contains(id),
        forall|other: u128| other != id && g.dom().contains(other) ==> finished(g, id, result)[other] == g[other],
{
    assert(finished(g, id, result).dom() =~= g.dom());
}

/// A pending task whose dependencies are all completed stays ready until it
/// is started: finishing another task never makes it unready.
pub proof fn law_ready_stays_ready(g: Map<u128, NodeView>, id: u128, other: u128, result: ResultView)
    requires
        is_ready(g, id),
        other != id,
    ensures
        is_ready(finished(g, other, result), id),
{
    let g2 = finished(g, other, result);
    assert forall|k: int| 0 <= k < g2[id].deps.len() implies g2.dom().contains(#[trigger] g2[id].deps[k])
        && g2[g2[id].deps[k]].status == TaskStatus::Completed by {
        assert(g.dom().contains(g[id].deps[k]));
    }
}

/// What the scheduler asks for next while running a graph.
#[derive(Debug)]
pub enum ExecStep {
    /// Run the task `id`, which is called `name`, and report its outcome.
    Run { id: u128, name: String },
    /// The run is over.
    Finished,
}

/// The state of a run of a graph: the batch of ready tasks being worked
/// through, and the results gathered so far, in the order the tasks ran.
#[derive(Debug)]
pub struct Execution {
    batch: Vec<u128>,
    next: usize,
    results: Vec<TaskResult>,
}

impl Execution {
    /// The ids of the current batch.
    pub closed spec fn batch(&self) -> Seq<u128> {
        self.batch@
    }

    /// How many tasks of the current batch have been handed out.
    pub closed spec fn handed_out(&self) -> int {
        self.next as int
    }

    /// The results gathered so far.
    pub closed spec fn spec_results(&self) -> Seq<ResultView> {
        self.results@.map_values(|t: TaskResult| t@)
    }

    /// A run that has not started.
    pub fn new() -> (r: Self)
        ensures
            r.batch() == Seq::<u128>::empty(),
            r.handed_out() == 0,
            r.spec_results() == Seq::<ResultView>::empty(),
            forall|g: Map<u128, NodeView>| run_inv(g, r.batch(), r.handed_out()),
    {
        let r = Execution { batch: Vec::new(), next: 0, results: Vec::new() };
        assert(r.spec_results() =~= Seq::<ResultView>::empty());
        r
    }

    /// The results gathered by the run.
    pub fn into_results(self) -> (r: Vec<TaskResult>)
        ensures
            r@.map_values(|t: TaskResult| t@) == self.spec_results(),
    {
        self.results
    }
}

impl TaskGraph {
    /// The next step of a run. When the current batch is worked through, the
    /// run ends if no task is pending or running, or if none is ready;
    /// otherwise the ready tasks become the next batch. The next task of the
    /// batch is then marked running and handed out with its name.
    pub fn next_step(&mut self, ex: &mut Execution) -> (r: ExecStep)
        ensures
            final(ex).spec_results() == old(ex).spec_results(),
            r matches ExecStep::Run { id, name } ==> {
                &&& name@ == name_in(old(self)@, id)
                &&& step_taken(
                    old(self)@,
                    old(ex).batch(),
                    old(ex).handed_out(),
                    final(self)@,
                    final(ex).batch(),
                    final(ex).handed_out(),
                    id,
                )
            },
            r is Finished ==> {
                &&& old(ex).handed_out() >= old(ex).batch().len()
                &&& !some_ready(old(self)@)
                &&& final(self)@ == old(self)@
                &&& final(ex).batch() == old(ex).batch()
                &&& final(ex).handed_out() == old(ex).handed_out()
            },
            old(ex).handed_out() < old(ex).batch().len() ==> r is Run,
            has_unfinished(old(self)@) && some_ready(old(self)@) ==> r is Run,
            run_inv(old(self)@, old(ex).batch(), old(ex).handed_out()) ==> {
                &&& run_inv(final(self)@, final(ex).batch(), final(ex).handed_out())
                &&& r matches ExecStep::Run { id, name } ==> is_ready(old(self)@, id)
            },
    {
        proof {
            use_type_invariant(&*self);
        }
        if ex.next >= ex.batch.len() {
            if !self.has_pending() {
                assert(!some_ready(self@)) by {
                    if some_ready(self@) {
                        let id = choose|id: u128| is_ready(self@, id);
                        assert(unfinished_status(self@[id].status));
                    }
                }
                return ExecStep::Finished;
            }
            let ready = self.get_ready_nodes();
            if ready.len() == 0 {
                assert(!some_ready(self@)) by {
                    if some_ready(self@) {
                        let id = choose|id: u128| is_ready(self@, id);
                        assert(ready@.contains(id));
                    }
                }
                return ExecStep::Finished;
            }
            assert(ready@.contains(ready@[0]));
            assert(some_ready(self@));
            ex.batch = ready;
            ex.next = 0;
        }
        let id = ex.batch[ex.next];
        ex.next = ex.next + 1;
        let name = match self.nodes.get(&id) {
            Some(n) => n.name.clone(),
            None => String::new(),
        };
        self.set_status(id, TaskStatus::Running);
        proof {
            if run_inv(old(self)@, old(ex).batch(), old(ex).handed_out()) {
                law_handed_out_task_was_ready(
                    old(self)@,
                    old(ex).batch(),
                    old(ex).handed_out(),
                    self@,
                    ex.batch(),
                    ex.handed_out(),
                    id,
                );
            }
        }
        ExecStep::Run { id, name }
    }

    /// Records what the executor answered for the task `id`: the task
    /// finishes with that result (marked completed, even when the executor
    /// failed), and the result joins those of the run.
    pub fn record_outcome(&mut self, ex: &mut Execution, id: u128, outcome: Result<Value, AgentError>)
        ensures
            final(ex).batch() == old(ex).batch(),
            final(ex).handed_out() == old(ex).handed_out(),
            final(ex).spec_results().len() == old(ex).spec_results().len() + 1,
            final(ex).spec_results().drop_last() == old(ex).spec_results(),
            records_outcome(outcome, final(ex).spec_results().last()),
            final(self)@ == finished(old(self)@, id, final(ex).spec_results().last()),
            run_inv(old(self)@, old(ex).batch(), old(ex).handed_out()) && old(self)@.dom().contains(id)
                && old(self)@[id].status == TaskStatus::Running ==> run_inv(
                final(self)@,
                final(ex).batch(),
                final(ex).handed_out(),
            ),
    {
        let ghost old_results = ex.spec_results();
        let result = match outcome {
            Ok(output) => TaskResult { output: TaskOutput::Json(output), error: None },
            Err(e) => TaskResult { output: TaskOutput::Null, error: Some(e.to_string()) },
        };
        let copy = result.copy();
        self.set_result(id, copy);
        ex.results.push(result);
        assert(ex.spec_results() =~= old_results.push(result@));
        proof {
            let g0 = old(self)@;
            let b = ex.batch();
            let h = ex.handed_out();
            if run_inv(g0, b, h) && g0.dom().contains(id) && g0[id].status == TaskStatus::Running {
                assert forall|k: int| h <= k < b.len() implies is_ready(self@, #[trigger] b[k]) by {
                    law_ready_stays_ready(g0, b[k], id, ex.spec_results().last());
                }
            }
        }
    }
}

/// One step of a run that hands out the task `id`: the next task of the
/// current batch, or, when the batch is worked through and some task is
/// unfinished, the first of a new batch made of exactly the ready tasks, each
/// once. The task is marked running.
pub open spec fn step_taken(
    g0: Map<u128, NodeView>,
    b0: Seq<u128>,
    h0: int,
    g1: Map<u128, NodeView>,
    b1: Seq<u128>,
    h1: int,
    id: u128,
) -> bool {
    &&& g1 == started(g0, id)
    &&& if h0 < b0.len() {
        &&& b1 == b0
        &&& h1 == h0 + 1
        &&& id == b0[h0]
    } else {
        &&& has_unfinished(g0)
        &&& b1.no_duplicates()
        &&& forall|x: u128| b1.contains(x) <==> is_ready(g0, x)
        &&& b1.len() >= 1
        &&& h1 == 1
        &&& id == b1[0]
    }
}

/// What a run relies on between steps: the tasks of the batch that are not
/// handed out yet are distinct and ready.
pub open spec fn run_inv(g: Map<u128, NodeView>, batch: Seq<u128>, handed_out: int) -> bool {
    &&& 0 <= handed_out <= batch.len()
    &&& batch.no_duplicates()
    &&& forall|k: int| handed_out <= k < batch.len() ==> is_ready(g, #[trigger] batch[k])
}

/// The tasks that are not completed.
pub open spec fn unfinished_ids(g: Map<u128, NodeView>) -> Set<u128> {
    g.dom().filter(|id: u128| g[id].status != TaskStatus::Completed)
}

/// A run that has not started meets the run invariant on any graph.
pub proof fn law_new_run_inv(g: Map<u128, NodeView>)
    ensures
        run_inv(g, Seq::empty(), 0),
{
}

/// Starting a task never makes another ready task unready: the tasks a ready
/// task depends on are completed, so none of them is the task that starts.
pub proof fn law_ready_stays_ready_on_start(g: Map<u128, NodeView>, id: u128, other: u128)
    requires
        is_ready(g, id),
        is_ready(g, other),
        other != id,
    ensures
        is_ready(started(g, other), id),
{
    let g2 = started(g, other);
    assert forall|k: int| 0 <= k < g2[id].deps.len() implies g2.dom().contains(#[trigger] g2[id].deps[k])
        && g2[g2[id].deps[k]].status == TaskStatus::Completed by {
        assert(g.dom().contains(g[id].deps[k]));
        assert(g[id].deps[k] != other);
    }
}

/// A run hands out only ready tasks, each once: the task handed out by a step
/// was pending with every task it depends on in the graph and completed, is
/// now running, and is not among the tasks of the batch still to come; the
/// run invariant holds after the step.
pub proof fn law_handed_out_task_was_ready(
    g0: Map<u128, NodeView>,
    b0: Seq<u128>,
    h0: int,
    g1: Map<u128, NodeView>,
    b1: Seq<u128>,
    h1: int,
    id: u128,
)
    requires
        run_inv(g0, b0, h0),
        step_taken(g0, b0, h0, g1, b1, h1, id),
    ensures
        is_ready(g0, id),
        forall|k: int|
            0 <= k < g0[id].deps.len() ==> g0.dom().contains(#[trigger] g0[id].deps[k])
                && g0[g0[id].deps[k]].status == TaskStatus::Completed,
        g1.dom().contains(id),
        g1[id].status == TaskStatus::Running,
        run_inv(g1, b1, h1),
        forall|k: int| h1 <= k < b1.len() ==> b1[k] != id,
        unfinished_ids(g1) == unfinished_ids(g0),
{
    if h0 < b0.len() {
        assert(is_ready(g0, b0[h0]));
        assert forall|k: int| h1 <= k < b1.len() implies b1[k] != id by {
            assert(b0[k] != b0[h0]);
        }
    } else {
        assert(b1.contains(b1[0]));
        assert forall|k: int| h1 <= k < b1.len() implies b1[k] != id by {
            assert(b1[k] != b1[0]);
        }
        assert forall|k: int| h1 <= k < b1.len() implies is_ready(g0, #[trigger] b1[k]) by {
            assert(b1.contains(b1[k]));
        }
    }
    assert forall|k: int| h1 <= k < b1.len() implies is_ready(g1, #[trigger] b1[k]) by {
        law_ready_stays_ready_on_start(g0, b1[k], id);
    }
    assert(unfinished_ids(g1) =~= unfinished_ids(g0));
}

/// A run ends: a step followed by recording the outcome of the task it handed
/// out completes exactly one unfinished task and keeps the run invariant, so
/// a run of a graph makes at most as many executor calls as the graph has
/// unfinished tasks.
pub proof fn law_round_completes_one_task(
    g0: Map<u128, NodeView>,
    b0: Seq<u128>,
    h0: int,
    g1: Map<u128, NodeView>,
    b1: Seq<u128>,
    h1: int,
    id: u128,
    result: ResultView,
    g2: Map<u128, NodeView>,
)
    requires
        g0.dom().finite(),
        run_inv(g0, b0, h0),
        step_taken(g0, b0, h0, g1, b1, h1, id),
        g2 == finished(g1, id, result),
    ensures
        run_inv(g2, b1, h1),
        unfinished_ids(g0).contains(id),
        unfinished_ids(g2) == unfinished_ids(g0).remove(id),
        unfinished_ids(g2).len() + 1 == unfinished_ids(g0).len(),
{
    law_handed_out_task_was_ready(g0, b0, h0, g1, b1, h1, id);
    assert forall|k: int| h1 <= k < b1.len() implies is_ready(g2, #[trigger] b1[k]) by {
        law_ready_stays_ready(g1, b1[k], id, result);
    }
    assert(unfinished_ids(g2) =~= unfinished_ids(g0).remove(id));
    assert(unfinished_ids(g0).contains(id));
    assert(unfinished_ids(g0).subset_of(g0.dom()));
    vstd::set_lib::lemma_len_subset(unfinished_ids(g0), g0.dom());
}

/// Round `i` of a run: from the graph `gs[i]` and the batch `bs[i]` with
/// `hs[i]` tasks handed out, a step hands out the task `ids[i]`, and
/// recording its result `rs[i]` leaves the graph `gs[i + 1]` and the batch
/// `bs[i + 1]` with `hs[i + 1]` tasks handed out.
pub open spec fn run_round(
    gs: Seq<Map<u128, NodeView>>,
    bs: Seq<Seq<u128>>,
    hs: Seq<int>,
    ids: Seq<u128>,
    rs: Seq<ResultView>,
    i: int,
) -> bool {
    exists|g_mid: Map<u128, NodeView>|
        #[trigger] step_taken(gs[i], bs[i], hs[i], g_mid, bs[i + 1], hs[i + 1], ids[i]) && gs[i + 1]
            == finished(g_mid, ids[i], rs[i])
}

/// A run of `n` rounds that starts with no batch: every task it hands out is
/// ready when handed out (pending, with every task it depends on in the graph
/// and completed), and the run invariant holds between all rounds.
pub proof fn law_run_hands_out_only_ready_tasks(
    gs: Seq<Map<u128, NodeView>>,
    bs: Seq<Seq<u128>>,
    hs: Seq<int>,
    ids: Seq<u128>,
    rs: Seq<ResultView>,
    n: int,
)
    requires
        0 <= n,
        gs.len() == n + 1,
        bs.len() == n + 1,
        hs.len() == n + 1,
        ids.len() == n,
        rs.len() == n,
        bs[0] == Seq::<u128>::empty(),
        hs[0] == 0,
        forall|i: int| 0 <= i < n ==> run_round(gs, bs, hs, ids, rs, i),
    ensures
        forall|i: int| 0 <= i < n ==> is_ready(#[trigger] gs[i], ids[i]),
        forall|i: int| 0 <= i <= n ==> run_inv(#[trigger] gs[i], bs[i], hs[i]),
    decreases n,
{
    if n > 0 {
        let m = n - 1;
        assert forall|i: int| 0 <= i < m implies run_round(
            gs.drop_last(),
            bs.drop_last(),
            hs.drop_last(),
            ids.drop_last(),
            rs.drop_last(),
            i,
        ) by {
            assert(run_round(gs, bs, hs, ids, rs, i));
            assert(gs.drop_last()[i] == gs[i] && gs.drop_last()[i + 1] == gs[i + 1]);
            assert(bs.drop_last()[i] == bs[i] && bs.drop_last()[i + 1] == bs[i + 1]);
            assert(hs.drop_last()[i] == hs[i] && hs.drop_last()[i + 1] == hs[i + 1]);
            assert(ids.drop_last()[i] == ids[i] && rs.drop_last()[i] == rs[i]);
        }
        law_run_hands_out_only_ready_tasks(
            gs.drop_last(),
            bs.drop_last(),
            hs.drop_last(),
            ids.drop_last(),
            rs.drop_last(),
            m,
        );
        assert(run_inv(gs[m], bs[m], hs[m])) by {
            assert(gs.drop_last()[m] == gs[m]);
        }
        assert(run_round(gs, bs, hs, ids, rs, m));
        let g_mid = choose|g_mid: Map<u128, NodeView>|
            #[trigger] step_taken(gs[m], bs[m], hs[m], g_mid, bs[m + 1], hs[m + 1], ids[m]) && gs[m + 1]
                == finished(g_mid, ids[m], rs[m]);
        law_handed_out_task_was_ready(gs[m], bs[m], hs[m], g_mid, bs[m + 1], hs[m + 1], ids[m]);
        law_ready_batch_survives_finish(g_mid, bs[m + 1], hs[m + 1], ids[m], rs[m]);
        assert forall|i: int| 0 <= i < n implies is_ready(#[trigger] gs[i], ids[i]) by {
            if i < m {
                assert(gs.drop_last()[i] == gs[i]);
                assert(is_ready(gs.drop_last()[i], ids.drop_last()[i]));
            }
        }
        assert forall|i: int| 0 <= i <= n implies run_inv(#[trigger] gs[i], bs[i], hs[i]) by {
            if i <= m {
                assert(gs.drop_last()[i] == gs[i]);
                assert(run_inv(gs.drop_last()[i], bs.drop_last()[i], hs.drop_last()[i]));
            }
        }
    }
}

/// Finishing a task that is not among the tasks still to come of a batch
/// keeps those tasks ready.
proof fn law_ready_batch_survives_finish(
    g: Map<u128, NodeView>,
    b: Seq<u128>,
    h: int,
    id: u128,
    result: ResultView,
)
    requires
        run_inv(g, b, h),
        forall|k: int| h <= k < b.len() ==> b[k] != id,
    ensures
        run_inv(finished(g, id, result), b, h),
{
    assert forall|k: int| h <= k < b.len() implies is_ready(finished(g, id, result), #[trigger] b[k]) by {
        law_ready_stays_ready(g, b[k], id, result);
    }
}

/// A pending task is blocked through a chain of at most `depth` pending
/// tasks: one of the tasks it depends on is missing from the graph, running
/// or failed, or is itself a pending task blocked through a shorter chain.
pub open spec fn blocked(g: Map<u128, NodeView>, x: u128, depth: nat) -> bool
    decreases depth,
{
    &&& g.dom().contains(x)
    &&& g[x].status == TaskStatus::Pending
    &&& exists|k: int|
        0 <= k < g[x].deps.len() && blocking_dep(g, #[trigger] g[x].deps[k], depth)
}

/// A dependency that holds a task back: missing, running, failed, or (within
/// `depth` more steps) a blocked pending task.
pub open spec fn blocking_dep(g: Map<u128, NodeView>, d: u128, depth: nat) -> bool
    decreases depth, 0nat,
{
    ||| !g.dom().contains(d)
    ||| g[d].status == TaskStatus::Running
    ||| g[d].status == TaskStatus::Failed
    ||| (depth > 0 && blocked(g, d, (depth - 1) as nat))
}

/// A task blocked through a chain of dependencies (one of them missing from
/// the graph, running or failed) is never handed out, and a round of the run
/// leaves it as it was and still blocked, so it never runs.
pub proof fn law_blocked_task_never_runs(
    g0: Map<u128, NodeView>,
    b0: Seq<u128>,
    h0: int,
    g1: Map<u128, NodeView>,
    b1: Seq<u128>,
    h1: int,
    id: u128,
    result: ResultView,
    g2: Map<u128, NodeView>,
    x: u128,
    depth: nat,
)
    requires
        run_inv(g0, b0, h0),
        step_taken(g0, b0, h0, g1, b1, h1, id),
        g2 == finished(g1, id, result),
        blocked(g0, x, depth),
    ensures
        id != x,
        g2.dom() == g0.dom(),
        g2[x] == g0[x],
        blocked(g2, x, depth),
    decreases depth,
{
    law_handed_out_task_was_ready(g0, b0, h0, g1, b1, h1, id);
    assert(g2.dom() =~= g0.dom());
    let k = choose|k: int| 0 <= k < g0[x].deps.len() && blocking_dep(g0, #[trigger] g0[x].deps[k], depth);
    let d = g0[x].deps[k];
    if g0.dom().contains(d) && g0[d].status != TaskStatus::Running && g0[d].status != TaskStatus::Failed {
        law_blocked_task_never_runs(g0, b0, h0, g1, b1, h1, id, result, g2, d, (depth - 1) as nat);
    }
    assert(id != x);
    assert(g2[x] == g0[x]);
    assert(blocking_dep(g2, g2[x].deps[k], depth));
}

impl Default for TaskGraph {
    fn default() -> (r: Self)
        ensures
            r@ == Map::<u128, NodeView>::empty(),
    {
        TaskGraph::new()
    }
}

/// In a run that starts with no batch, a task blocked through a chain of
/// dependencies at the start is never handed out and stays as it was.
pub proof fn law_blocked_task_never_runs_in_a_run(
    gs: Seq<Map<u128, NodeView>>,
    bs: Seq<Seq<u128>>,
    hs: Seq<int>,
    ids: Seq<u128>,
    rs: Seq<ResultView>,
    n: int,
    x: u128,
    depth: nat,
)
    requires
        0 <= n,
        gs.len() == n + 1,
        bs.len() == n + 1,
        hs.len() == n + 1,
        ids.len() == n,
        rs.len() == n,
        bs[0] == Seq::<u128>::empty(),
        hs[0] == 0,
        forall|i: int| 0 <= i < n ==> run_round(gs, bs, hs, ids, rs, i),
        blocked(gs[0], x, depth),
    ensures
        forall|i: int| 0 <= i < n ==> #[trigger] ids[i] != x,
        forall|i: int| 0 <= i <= n ==> blocked(#[trigger] gs[i], x, depth) && gs[i][x] == gs[0][x],
    decreases n,
{
    law_run_hands_out_only_ready_tasks(gs, bs, hs, ids, rs, n);
    if n > 0 {
        let m = n - 1;
        assert forall|i: int| 0 <= i < m implies run_round(
            gs.drop_last(),
            bs.drop_last(),
            hs.drop_last(),
            ids.drop_last(),
            rs.drop_last(),
            i,
        ) by {
            assert(run_round(gs, bs, hs, ids, rs, i));
            assert(gs.drop_last()[i] == gs[i] && gs.drop_last()[i + 1] == gs[i + 1]);
            assert(bs.drop_last()[i] == bs[i] && bs.drop_last()[i + 1] == bs[i + 1]);
            assert(hs.drop_last()[i] == hs[i] && hs.drop_last()[i + 1] == hs[i + 1]);
            assert(ids.drop_last()[i] == ids[i] && rs.drop_last()[i] == rs[i]);
        }
        assert(gs.drop_last()[0] == gs[0]);
        law_blocked_task_never_runs_in_a_run(
            gs.drop_last(),
            bs.drop_last(),
            hs.drop_last(),
            ids.drop_last(),
            rs.drop_last(),
            m,
            x,
            depth,
        );
        assert(gs.drop_last()[m] == gs[m]);
        assert(blocked(gs.drop_last()[m], x, depth));
        assert(run_inv(gs[m], bs[m], hs[m]));
        assert(run_round(gs, bs, hs, ids, rs, m));
        let g_mid = choose|g_mid: Map<u128, NodeView>|
            #[trigger] step_taken(gs[m], bs[m], hs[m], g_mid, bs[m + 1], hs[m + 1], ids[m]) && gs[m + 1]
                == finished(g_mid, ids[m], rs[m]);
        law_blocked_task_never_runs(
            gs[m],
            bs[m],
            hs[m],
            g_mid,
            bs[m + 1],
            hs[m + 1],
            ids[m],
            rs[m],
            gs[m + 1],
            x,
            depth,
        );
        assert forall|i: int| 0 <= i < n implies #[trigger] ids[i] != x by {
            if i < m {
                assert(ids.drop_last()[i] == ids[i]);
            }
        }
        assert forall|i: int| 0 <= i <= n implies blocked(#[trigger] gs[i], x, depth) && gs[i][x] == gs[0][x] by {
            if i <= m {
                assert(gs.drop_last()[i] == gs[i]);
            }
        }
    }
}

} // verus!
