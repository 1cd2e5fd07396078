//! The registry of tools an agent can call, and an actor's context with its
//! keyed state.

use vstd::prelude::*;
use vstd::string::*;
use serde_json::Value;
use crate::error::AgentError;
use crate::json::clone_value;
use crate::keyed::KeyedMap;
use crate::message::ActorRef;

verus! {

/// The registry after registering the named tools one after the other: a
/// later tool replaces an earlier one of the same name.
pub open spec fn registered_all<T>(tools: Map<Seq<char>, T>, named: Seq<(String, T)>) -> Map<Seq<char>, T>
    decreases named.len(),
{
    if named.len() == 0 {
        tools
    } else {
        registered_all(tools, named.drop_last()).insert(named.last().0@, named.last().1)
    }
}

/// The names of the named tools.
pub open spec fn names_of<T>(named: Seq<(String, T)>) -> Set<Seq<char>> {
    Set::new(|k: Seq<char>| exists|i: int| 0 <= i < named.len() && #[trigger] named[i].0@ == k)
}

/// Registering named tools one after the other leaves the names registered
/// before together with exactly the names given; under each given name stands
/// the last tool given with it, and under every other name the tool that stood
/// there before.
pub proof fn law_registered_all<T>(tools: Map<Seq<char>, T>, named: Seq<(String, T)>)
    ensures
        registered_all(tools, named).dom() == tools.dom().union(names_of(named)),
        forall|i: int|
            0 <= i < named.len() && (forall|j: int| i < j < named.len() ==> named[j].0@ != named[i].0@)
                ==> #[trigger] registered_all(tools, named)[named[i].0@] == named[i].1,
        forall|k: Seq<char>|
            !names_of(named).contains(k) && tools.dom().contains(k) ==> #[trigger] registered_all(
                tools,
                named,
            )[k] == tools[k],
    decreases named.len(),
{
    if named.len() > 0 {
        let init = named.drop_last();
        law_registered_all(tools, init);
        let last = named.last();
        assert forall|k: Seq<char>| names_of(named).contains(k) <==> names_of(init).contains(k) || k
            == last.0@ by {
            if names_of(named).contains(k) {
                let i = choose|i: int| 0 <= i < named.len() && #[trigger] named[i].0@ == k;
                if i < named.len() - 1 {
                    assert(init[i].0@ == k);
                }
            }
            if names_of(init).contains(k) {
                let i = choose|i: int| 0 <= i < init.len() && #[trigger] init[i].0@ == k;
                assert(named[i].0@ == k);
            }
            if k == last.0@ {
                assert(named[named.len() - 1].0@ == k);
            }
        }
        assert(registered_all(tools, named).dom() =~= tools.dom().union(names_of(named)));
        assert forall|i: int|
            0 <= i < named.len() && (forall|j: int| i < j < named.len() ==> named[j].0@ != named[i].0@)
                implies #[trigger] registered_all(tools, named)[named[i].0@] == named[i].1 by {
            if i < named.len() - 1 {
                assert(named[named.len() - 1].0@ != named[i].0@);
                assert(init[i] == named[i]);
                assert forall|j: int| i < j < init.len() implies init[j].0@ != init[i].0@ by {
                    assert(init[j] == named[j]);
                }
            }
        }
        assert forall|k: Seq<char>|
            !names_of(named).contains(k) && tools.dom().contains(k) implies #[trigger] registered_all(
            tools,
            named,
        )[k] == tools[k] by {
            assert(!names_of(init).contains(k));
        }
    } else {
        assert(names_of(named) =~= Set::<Seq<char>>::empty());
        assert(registered_all(tools, named).dom() =~= tools.dom().union(names_of(named)));
    }
}

/// Registering named tools in an empty registry registers exactly their names.
pub proof fn law_registered_all_from_empty<T>(named: Seq<(String, T)>)
    ensures
        registered_all(Map::<Seq<char>, T>::empty(), named).dom() == names_of(named),
{
    law_registered_all(Map::<Seq<char>, T>::empty(), named);
    assert(Map::<Seq<char>, T>::empty().dom().union(names_of(named)) =~= names_of(named));
}

/// Tools by name. A tool registered under a name already taken replaces the
/// tool registered before under it.
#[derive(Debug)]
pub struct ToolRegistry<T> {
    tools: KeyedMap<T>,
}

impl<T> View for ToolRegistry<T> {
    type V = Map<Seq<char>, T>;

    /// The registered tools by name.
    closed spec fn view(&self) -> Map<Seq<char>, T> {
        self.tools@
    }
}

impl<T> ToolRegistry<T> {
    /// An empty registry.
    pub fn new() -> (r: Self)
        ensures
            r@ == Map::<Seq<char>, T>::empty(),
    {
        ToolRegistry { tools: KeyedMap::new() }
    }

    /// Registers `tool` under `name`. Registering never fails.
    pub fn register(&mut self, name: String, tool: T) -> (r: Result<(), AgentError>)
        ensures
            r is Ok,
            final(self)@ == old(self)@.insert(name@, tool),
    {
        self.tools.insert(name, tool);
        Ok(())
    }


    /// Registers each named tool in turn, in order.
    pub fn register_all(&mut self, named: Vec<(String, T)>)
        ensures
            final(self)@ == registered_all(old(self)@, named@),
    {
        let ghost all = named@;
        let ghost start = self@;
        let mut named = named;
        let n = named.len();
        assert(all.len() == n);
        let mut k: usize = 0;
        assert(all.take(0) =~= Seq::<(String, T)>::empty());
        assert(all.skip(0) =~= all);
        while named.len() > 0
            invariant
                k <= all.len(),
                all.len() <= usize::MAX,
                named@ == all.skip(k as int),
                self@ == registered_all(start, all.take(k as int)),
            decreases named.len(),
        {
            let (name, tool) = named.remove(0);
            proof {
                assert(all.take(k + 1).drop_last() =~= all.take(k as int));
                assert(all.take(k + 1).last() == all[k as int]);
                assert(named@ =~= all.skip(k + 1));
            }
            self.tools.insert(name, tool);
            k = k + 1;
        }
        assert(all.take(k as int) =~= all);
    }

    /// The tool registered under `name`, if any.
    pub fn get(&self, name: &str) -> (r: Option<&T>)
        ensures
            match r {
                Some(t) => self@.dom().contains(name@) && *t == self@[name@],
                None => !self@.dom().contains(name@),
            },
    {
        self.tools.get(name)
    }

    /// The tool to call under `name`, or the tool error that a call of an
    /// unknown tool fails with.
    pub fn lookup(&self, name: &str) -> (r: Result<&T, AgentError>)
        ensures
            match r {
                Ok(t) => self@.dom().contains(name@) && *t == self@[name@],
                Err(e) => !self@.dom().contains(name@) && (e matches AgentError::ToolError(m) && m@
                    == "Tool not found: "@ + name@),
            },
    {
        match self.tools.get(name) {
            Some(t) => Ok(t),
            None => {
                let mut m = String::from_str("Tool not found: ");
                m.append(name);
                Err(AgentError::ToolError(m))
            },
        }
    }

    /// The names of the registered tools, each once.
    pub fn list_tools(&self) -> (r: Vec<String>)
        ensures
            r@.len() == self@.len(),
            forall|i: int| 0 <= i < r@.len() ==> self@.dom().contains(#[trigger] r@[i]@),
            forall|k: Seq<char>| self@.dom().contains(k) ==> exists|i: int| 0 <= i < r@.len() && #[trigger] r@[i]@ == k,
            forall|i: int, j: int| 0 <= i < j < r@.len() ==> r@[i]@ != r@[j]@,
    {
        self.tools.keys()
    }

    /// Whether a tool is registered under `name`.
    pub fn has_tool(&self, name: &str) -> (r: bool)
        ensures
            r == self@.dom().contains(name@),
    {
        self.tools.contains_key(name)
    }

    /// Removes the tool registered under `name`; tells whether there was one.
    pub fn unregister(&mut self, name: &str) -> (r: bool)
        ensures
            r == old(self)@.dom().contains(name@),
            final(self)@ == old(self)@.remove(name@),
    {
        self.tools.remove(name).is_some()
    }

    /// Removes every tool.
    pub fn clear(&mut self)
        ensures
            final(self)@ == Map::<Seq<char>, T>::empty(),
    {
        self.tools.clear()
    }
}

/// A tool registered under a name is the one found under that name, and the
/// tools under other names stay as they were.
pub proof fn law_registered_tool_is_found<T>(tools: Map<Seq<char>, T>, name: Seq<char>, tool: T)
    ensures
        tools.insert(name, tool).dom().contains(name),
        tools.insert(name, tool)[name] == tool,
        forall|other: Seq<char>|
            other != name ==> (tools.insert(name, tool).dom().contains(other) == tools.dom().contains(other)
                && (tools.dom().contains(other) ==> tools.insert(name, tool)[other] == tools[other])),
{
}

/// A tool unregistered is no longer found, and the others stay.
pub proof fn law_unregistered_tool_is_gone<T>(tools: Map<Seq<char>, T>, name: Seq<char>)
    ensures
        !tools.remove(name).dom().contains(name),
        forall|other: Seq<char>|
            other != name && tools.dom().contains(other) ==> tools.remove(name).dom().contains(other)
                && tools.remove(name)[other] == tools[other],
{
}

/// The state reads back what was last written under a key.
pub proof fn law_state_reads_back(state: Map<Seq<char>, Value>, key: Seq<char>, v: Value, w: Value)
    ensures
        state.insert(key, v).insert(key, w)[key] == w,
        state.insert(key, v).insert(key, w) == state.insert(key, w),
{
    assert(state.insert(key, v).insert(key, w) =~= state.insert(key, w));
}

/// The context an actor handles messages in: a reference to the actor and
/// its state, JSON values by key.
#[derive(Debug)]
pub struct Context {
    pub actor_ref: ActorRef,
    pub state: KeyedMap<Value>,
}

impl Context {
    /// The state by key.
    pub open spec fn state(&self) -> Map<Seq<char>, Value> {
        self.state@
    }

    /// The context of the actor `actor_id`, with an empty state.
    pub fn new(actor_id: &str) -> (r: Self)
        ensures
            r.actor_ref.id@ == actor_id@,
            r.state() == Map::<Seq<char>, Value>::empty(),
    {
        Context { actor_ref: ActorRef::new(actor_id), state: KeyedMap::new() }
    }

    /// A copy of the value stored under `key`, if any.
    pub fn get_state(&self, key: &str) -> (r: Option<Value>)
        ensures
            match r {
                Some(v) => self.state().dom().contains(key@) && v == self.state()[key@],
                None => !self.state().dom().contains(key@),
            },
    {
        match self.state.get(key) {
            Some(v) => Some(clone_value(v)),
            None => None,
        }
    }

    /// Stores `value` under `key`, replacing what was stored there.
    pub fn set_state(&mut self, key: &str, value: Value)
        ensures
            final(self).state() == old(self).state().insert(key@, value),
            final(self).actor_ref == old(self).actor_ref,
    {
        self.state.insert(String::from_str(key), value)
    }

    /// Forgets every stored value.
    pub fn clear_state(&mut self)
        ensures
            final(self).state() == Map::<Seq<char>, Value>::empty(),
            final(self).actor_ref == old(self).actor_ref,
    {
        self.state.clear()
    }
}

impl Default for Context {
    fn default() -> (r: Self)
        ensures
            r.actor_ref.id@ == "default"@,
            r.state() == Map::<Seq<char>, Value>::empty(),
    {
        Context::new("default")
    }
}

} // verus!
