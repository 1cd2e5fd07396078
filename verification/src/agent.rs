//! The decisions of an agent run. An agent plans how to serve an input,
//! calls the planned tool, and lets its language model (if it has one) word
//! the answer. The planner, the tool and the model are awaited outside; an
//! `AgentRun` takes each of their answers and says what to do next.

use vstd::prelude::*;
use vstd::string::*;
use serde_json::Value;
use crate::error::AgentError;
use crate::planner::RuleBasedPlanner;
use crate::registry::Context;
use crate::json::{
    json_text, member_of, number_text, string_of_value, value_as_text, value_json_text, value_member,
    value_number_text,
};

verus! {

/// Where a run stands.
#[derive(Debug, Clone, Copy, PartialEq, Eq, Structural)]
pub enum RunPhase {
    /// Waiting for the planner.
    Planning,
    /// Waiting for the planned tool.
    CallingTool,
    /// Waiting for the language model.
    Summarizing,
    /// The run has its answer.
    Done,
}

/// An answer that the run waited for.
#[derive(Debug)]
pub enum RunEvent {
    /// The planner answered with the name of the tool to call, or with no plan.
    Planned(Option<String>),
    /// The tool answered; the text of its `result` field, if it had one.
    ToolAnswered(Option<String>),
    /// The language model answered with this text.
    Completed(String),
    /// The planner, the tool or the model failed.
    Failed(AgentError),
}

/// What to do next.
#[derive(Debug)]
pub enum RunAction {
    /// Call this tool with the planned arguments.
    CallTool(String),
    /// Ask the language model to complete this prompt.
    Complete(String),
    /// The run is over, with this answer.
    Finish(Result<String, AgentError>),
}

/// The abstract contents of an event.
pub enum EventView {
    Planned(Option<Seq<char>>),
    ToolAnswered(Option<Seq<char>>),
    Completed(Seq<char>),
    Failed(AgentError),
}

/// The abstract contents of an action.
pub enum ActionView {
    CallTool(Seq<char>),
    Complete(Seq<char>),
    FinishOk(Seq<char>),
    FinishErr(AgentError),
}

pub open spec fn option_text(o: Option<String>) -> Option<Seq<char>> {
    match o {
        Some(s) => Some(s@),
        None => None,
    }
}

impl View for RunEvent {
    type V = EventView;

    open spec fn view(&self) -> EventView {
        match self {
            RunEvent::Planned(t) => EventView::Planned(option_text(*t)),
            RunEvent::ToolAnswered(f) => EventView::ToolAnswered(option_text(*f)),
            RunEvent::Completed(s) => EventView::Completed(s@),
            RunEvent::Failed(e) => EventView::Failed(*e),
        }
    }
}

impl View for RunAction {
    type V = ActionView;

    open spec fn view(&self) -> ActionView {
        match self {
            RunAction::CallTool(t) => ActionView::CallTool(t@),
            RunAction::Complete(p) => ActionView::Complete(p@),
            RunAction::Finish(Ok(s)) => ActionView::FinishOk(s@),
            RunAction::Finish(Err(e)) => ActionView::FinishErr(*e),
        }
    }
}

/// The answer when no tool serves the input and there is no model.
pub open spec fn unknown_answer(input: Seq<char>) -> Seq<char> {
    "I don't know how to handle: "@ + input
}

/// The text of a tool's answer: its `result` field, or `No result`.
pub open spec fn tool_text(field: Option<Seq<char>>) -> Seq<char> {
    match field {
        Some(s) => s,
        None => "No result"@,
    }
}

/// The prompt that asks the model to word the answer from a tool's result.
pub open spec fn summary_prompt(input: Seq<char>, tool: Seq<char>, result: Seq<char>) -> Seq<char> {
    "User asked: '"@ + input + "'. Tool '"@ + tool + "' returned: "@ + result
        + ". Provide a helpful response."@
}

/// The answers a run waits for in each phase (a failure is always one).
pub open spec fn accepts(phase: RunPhase, e: EventView) -> bool {
    match e {
        EventView::Failed(_) => phase != RunPhase::Done,
        EventView::Planned(_) => phase == RunPhase::Planning,
        EventView::ToolAnswered(_) => phase == RunPhase::CallingTool,
        EventView::Completed(_) => phase == RunPhase::Summarizing,
    }
}

/// The next phase, the tool being called, and the action, after an accepted
/// answer.
pub open spec fn transition(
    input: Seq<char>,
    has_llm: bool,
    tool: Seq<char>,
    e: EventView,
) -> (RunPhase, Seq<char>, ActionView) {
    match e {
        EventView::Failed(err) => (RunPhase::Done, tool, ActionView::FinishErr(err)),
        EventView::Planned(None) => if has_llm {
            (RunPhase::Summarizing, tool, ActionView::Complete(input))
        } else {
            (RunPhase::Done, tool, ActionView::FinishOk(unknown_answer(input)))
        },
        EventView::Planned(Some(t)) => (RunPhase::CallingTool, t, ActionView::CallTool(t)),
        EventView::ToolAnswered(f) => if has_llm {
            (RunPhase::Summarizing, tool, ActionView::Complete(summary_prompt(input, tool, tool_text(f))))
        } else {
            (RunPhase::Done, tool, ActionView::FinishOk(tool_text(f)))
        },
        EventView::Completed(s) => (RunPhase::Done, tool, ActionView::FinishOk(s)),
    }
}

/// How many answers a run in this phase may still wait for.
pub open spec fn rank(phase: RunPhase) -> nat {
    match phase {
        RunPhase::Planning => 3,
        RunPhase::CallingTool => 2,
        RunPhase::Summarizing => 1,
        RunPhase::Done => 0,
    }
}

/// A run ends: every accepted answer moves it to a phase of lower rank, so a
/// run takes at most three answers, and only a finished run accepts none.
pub proof fn law_run_advances(input: Seq<char>, has_llm: bool, tool: Seq<char>, phase: RunPhase, e: EventView)
    requires
        accepts(phase, e),
    ensures
        rank(transition(input, has_llm, tool, e).0) < rank(phase),
        transition(input, has_llm, tool, e).0 == RunPhase::Done <==> transition(
            input,
            has_llm,
            tool,
            e,
        ).2 is FinishOk || transition(input, has_llm, tool, e).2 is FinishErr,
{
}

/// A run answers a failure with that very error, in every phase that waits.
pub proof fn law_failures_propagate(input: Seq<char>, has_llm: bool, tool: Seq<char>, phase: RunPhase, err: AgentError)
    requires
        phase != RunPhase::Done,
    ensures
        accepts(phase, EventView::Failed(err)),
        transition(input, has_llm, tool, EventView::Failed(err)) == (
            RunPhase::Done,
            tool,
            ActionView::FinishErr(err),
        ),
{
}

/// What a run answers to each answer it waits for:
/// - with no plan, an agent with a model asks the model to complete exactly
///   the user's input, and one without a model refuses the input;
/// - with a plan, the run calls the planned tool;
/// - a tool's answer is handed to the model inside the summary prompt, or,
///   without a model, is the run's answer (`No result` when the tool gave no
///   `result` field);
/// - the model's text is the run's answer.
pub proof fn law_run_answers(input: Seq<char>, tool: Seq<char>, planned: Seq<char>, field: Option<Seq<char>>, text: Seq<char>)
    ensures
        transition(input, true, tool, EventView::Planned(None)) == (
            RunPhase::Summarizing,
            tool,
            ActionView::Complete(input),
        ),
        transition(input, false, tool, EventView::Planned(None)) == (
            RunPhase::Done,
            tool,
            ActionView::FinishOk("I don't know how to handle: "@ + input),
        ),
        transition(input, true, tool, EventView::Planned(Some(planned))) == (
            RunPhase::CallingTool,
            planned,
            ActionView::CallTool(planned),
        ),
        transition(input, false, tool, EventView::Planned(Some(planned))) == (
            RunPhase::CallingTool,
            planned,
            ActionView::CallTool(planned),
        ),
        transition(input, true, tool, EventView::ToolAnswered(Some(text))) == (
            RunPhase::Summarizing,
            tool,
            ActionView::Complete(
                "User asked: '"@ + input + "'. Tool '"@ + tool + "' returned: "@ + text
                    + ". Provide a helpful response."@,
            ),
        ),
        transition(input, true, tool, EventView::ToolAnswered(None)) == (
            RunPhase::Summarizing,
            tool,
            ActionView::Complete(
                "User asked: '"@ + input + "'. Tool '"@ + tool + "' returned: "@ + "No result"@
                    + ". Provide a helpful response."@,
            ),
        ),
        transition(input, false, tool, EventView::ToolAnswered(Some(text))) == (
            RunPhase::Done,
            tool,
            ActionView::FinishOk(text),
        ),
        transition(input, false, tool, EventView::ToolAnswered(None)) == (
            RunPhase::Done,
            tool,
            ActionView::FinishOk("No result"@),
        ),
        transition(input, true, tool, EventView::Completed(text)) == (
            RunPhase::Done,
            tool,
            ActionView::FinishOk(text),
        ),
{
}

/// The text of a tool's answer: its `result` field, or `No result`.
pub fn tool_result_text(field: Option<String>) -> (r: String)
    ensures
        r@ == tool_text(option_text(field)),
{
    match field {
        Some(s) => s,
        None => String::from_str("No result"),
    }
}

/// The text of a tool output's `result` field: a JSON string as it is, a
/// number as its text, any other value as its JSON text; none when the
/// output has no such field.
pub open spec fn result_text(output: Value) -> Option<Seq<char>> {
    match member_of(output, "result"@) {
        None => None,
        Some(field) => match string_of_value(field) {
            Some(t) => Some(t),
            None => match number_text(field) {
                Some(t) => Some(t),
                None => Some(json_text(field)),
            },
        },
    }
}

/// Reads the text of a tool output's `result` field.
pub fn result_field(output: &Value) -> (r: Option<String>)
    ensures
        option_text(r) == result_text(*output),
{
    match value_member(output, "result") {
        None => None,
        Some(field) => match value_as_text(field) {
            Some(t) => Some(t),
            None => match value_number_text(field) {
                Some(t) => Some(t),
                None => Some(value_json_text(field)),
            },
        },
    }
}

/// The answer a direct tool call gives: the text of the output's `result`
/// field, or `No result`.
pub fn tool_answer(output: &Value) -> (r: String)
    ensures
        r@ == tool_text(result_text(*output)),
{
    tool_result_text(result_field(output))
}

/// A run of an agent on one input.
#[derive(Debug)]
pub struct AgentRun {
    input: String,
    has_llm: bool,
    phase: RunPhase,
    tool_name: String,
}

impl AgentRun {
    pub closed spec fn input(&self) -> Seq<char> {
        self.input@
    }

    pub closed spec fn has_llm(&self) -> bool {
        self.has_llm
    }

    pub closed spec fn phase(&self) -> RunPhase {
        self.phase
    }

    /// The tool the run called, once the planner named one.
    pub closed spec fn tool(&self) -> Seq<char> {
        self.tool_name@
    }

    /// A run on `input`, for an agent that has a language model or not. It
    /// waits for the planner's answer on `input`.
    pub fn new(input: &str, has_llm: bool) -> (r: Self)
        ensures
            r.input() == input@,
            r.has_llm() == has_llm,
            r.phase() == RunPhase::Planning,
            r.tool() == Seq::<char>::empty(),
    {
        AgentRun {
            input: String::from_str(input),
            has_llm,
            phase: RunPhase::Planning,
            tool_name: String::new(),
        }
    }

    pub fn phase_now(&self) -> (r: RunPhase)
        ensures
            r == self.phase(),
    {
        self.phase
    }

    /// Takes an answer that the run waits for and says what to do next.
    pub fn step(&mut self, event: RunEvent) -> (r: RunAction)
        requires
            accepts(old(self).phase(), event@),
        ensures
            final(self).input() == old(self).input(),
            final(self).has_llm() == old(self).has_llm(),
            (final(self).phase(), final(self).tool(), r@) == transition(
                old(self).input(),
                old(self).has_llm(),
                old(self).tool(),
                event@,
            ),
            rank(final(self).phase()) < rank(old(self).phase()),
    {
        match event {
            RunEvent::Failed(e) => {
                self.phase = RunPhase::Done;
                RunAction::Finish(Err(e))
            },
            RunEvent::Planned(None) => {
                if self.has_llm {
                    self.phase = RunPhase::Summarizing;
                    RunAction::Complete(self.input.clone())
                } else {
                    self.phase = RunPhase::Done;
                    let mut s = String::from_str("I don't know how to handle: ");
                    s.append(self.input.as_str());
                    RunAction::Finish(Ok(s))
                }
            },
            RunEvent::Planned(Some(t)) => {
                self.phase = RunPhase::CallingTool;
                self.tool_name = t.clone();
                RunAction::CallTool(t)
            },
            RunEvent::ToolAnswered(field) => {
                let result = tool_result_text(field);
                if self.has_llm {
                    self.phase = RunPhase::Summarizing;
                    let mut p = String::from_str("User asked: '");
                    p.append(self.input.as_str());
                    p.append("'. Tool '");
                    p.append(self.tool_name.as_str());
                    p.append("' returned: ");
                    p.append(result.as_str());
                    p.append(". Provide a helpful response.");
                    RunAction::Complete(p)
                } else {
                    self.phase = RunPhase::Done;
                    RunAction::Finish(Ok(result))
                }
            },
            RunEvent::Completed(s) => {
                self.phase = RunPhase::Done;
                RunAction::Finish(Ok(s))
            },
        }
    }
}

/// The parts an agent is built from: its name, its tools in the order they
/// were added, and optionally a language model and a planner.
#[derive(Debug)]
pub struct AgentBuilder<T, L, P> {
    name: String,
    tools: Vec<T>,
    llm: Option<L>,
    planner: Option<P>,
}

impl<T, L, P> AgentBuilder<T, L, P> {
    pub closed spec fn spec_name(&self) -> Seq<char> {
        self.name@
    }

    pub closed spec fn spec_tools(&self) -> Seq<T> {
        self.tools@
    }

    pub closed spec fn spec_llm(&self) -> Option<L> {
        self.llm
    }

    pub closed spec fn spec_planner(&self) -> Option<P> {
        self.planner
    }

    /// A builder for an agent named `agent`, with no tools, no model and no
    /// planner.
    pub fn new() -> (r: Self)
        ensures
            r.spec_name() == "agent"@,
            r.spec_tools() == Seq::<T>::empty(),
            r.spec_llm() == None::<L>,
            r.spec_planner() == None::<P>,
    {
        AgentBuilder { name: String::from_str("agent"), tools: Vec::new(), llm: None, planner: None }
    }

    /// Names the agent.
    pub fn name(self, name: &str) -> (r: Self)
        ensures
            r.spec_name() == name@,
            r.spec_tools() == self.spec_tools(),
            r.spec_llm() == self.spec_llm(),
            r.spec_planner() == self.spec_planner(),
    {
        AgentBuilder { name: String::from_str(name), ..self }
    }

    /// Adds a tool after those added before.
    pub fn tool(self, tool: T) -> (r: Self)
        ensures
            r.spec_name() == self.spec_name(),
            r.spec_tools() == self.spec_tools().push(tool),
            r.spec_llm() == self.spec_llm(),
            r.spec_planner() == self.spec_planner(),
    {
        let mut b = self;
        b.tools.push(tool);
        b
    }

    /// Gives the agent a language model, in place of any given before.
    pub fn llm(self, llm: L) -> (r: Self)
        ensures
            r.spec_name() == self.spec_name(),
            r.spec_tools() == self.spec_tools(),
            r.spec_llm() == Some(llm),
            r.spec_planner() == self.spec_planner(),
    {
        AgentBuilder { llm: Some(llm), ..self }
    }

    /// Gives the agent a planner, in place of any given before.
    pub fn planner(self, planner: P) -> (r: Self)
        ensures
            r.spec_name() == self.spec_name(),
            r.spec_tools() == self.spec_tools(),
            r.spec_llm() == self.spec_llm(),
            r.spec_planner() == Some(planner),
    {
        AgentBuilder { planner: Some(planner), ..self }
    }

    /// The name, the tools, the model and the planner.
    pub fn into_parts(self) -> (r: (String, Vec<T>, Option<L>, Option<P>))
        ensures
            r.0@ == self.spec_name(),
            r.1@ == self.spec_tools(),
            r.2 == self.spec_llm(),
            r.3 == self.spec_planner(),
    {
        (self.name, self.tools, self.llm, self.planner)
    }

    /// Builds the agent's parts: the name, the tools and the model as given,
    /// the planner given or else the rule-based planner, and a context for
    /// the actor `agent` with an empty state.
    pub fn build(self) -> (r: AgentParts<T, L, P>)
        ensures
            r.name@ == self.spec_name(),
            r.tools@ == self.spec_tools(),
            r.llm == self.spec_llm(),
            match self.spec_planner() {
                Some(p) => r.planner == PlannerChoice::<P>::Given(p),
                None => r.planner matches PlannerChoice::RuleBased(q) && q.spec_name() == "rule_based"@,
            },
            r.context.actor_ref.id@ == "agent"@,
            r.context.state() == Map::<Seq<char>, Value>::empty(),
    {
        let planner = match self.planner {
            Some(p) => PlannerChoice::Given(p),
            None => PlannerChoice::RuleBased(RuleBasedPlanner::new()),
        };
        AgentParts {
            name: self.name,
            tools: self.tools,
            llm: self.llm,
            planner,
            context: Context::new("agent"),
        }
    }
}

/// The planner an agent runs with: one that was given, or the rule-based
/// planner.
#[derive(Debug)]
pub enum PlannerChoice<P> {
    Given(P),
    RuleBased(RuleBasedPlanner),
}

/// What an agent is made of: its name, tools, model, planner and context.
#[derive(Debug)]
pub struct AgentParts<T, L, P> {
    pub name: String,
    pub tools: Vec<T>,
    pub llm: Option<L>,
    pub planner: PlannerChoice<P>,
    pub context: Context,
}

} // verus!
