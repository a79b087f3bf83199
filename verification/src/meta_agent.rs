//! The meta agent: routes actions to agents and picks the next goal.

use vstd::prelude::*;
use crate::sort::{Key3, key_le, key_lt};
use crate::state::{Goal, GoalStatus, GoalView};
use crate::text::{decimal, join, lemma_join_push, push_decimal, push_str, str_eq};
use crate::tool_registry::{ToolRegistry, tool_spec};

verus! {

/// The agent that handles an action.
pub open spec fn agent_for(action: Seq<char>) -> Seq<char> {
    if action == "speak"@ || action == "listen"@ {
        "voice"@
    } else if action == "open_app"@ || action == "screenshot"@ || action == "input_text"@ || action == "swipe"@
        || action == "tap"@ {
        "mobile"@
    } else if action == "search"@ || action == "fetch"@ || action == "browse"@ {
        "browser"@
    } else if action == "code"@ || action == "build_app"@ {
        "coder"@
    } else if action == "calendar"@ {
        "calendar"@
    } else if action == "email"@ || action == "send_email"@ {
        "gmail"@
    } else if action == "repair"@ || action == "plan"@ || action == "decompose"@ {
        "repair"@
    } else {
        "brain"@
    }
}

/// The key by which the next goal is chosen, smallest first: the highest priority first, then
/// the older goal.
pub open spec fn next_key(g: GoalView) -> Key3 {
    ((u64::MAX - g.priority) as u64, g.created_tick, 0)
}

/// The report on the active agents.
pub open spec fn performance_report(agents: Seq<Seq<char>>, stats: Seq<char>) -> Seq<char> {
    if agents.len() == 0 {
        "No active agents."@
    } else {
        "Active agents ("@ + decimal(agents.len()) + "): "@ + join(agents, ", "@) + ". System: "@ + stats
    }
}

/// How many times a task is sent before the delegation gives up.
pub const DELEGATION_ATTEMPTS: u64 = 3;

/// What the delegation does after an attempt.
#[derive(Debug)]
pub enum Delegation {
    /// It is over, with this report.
    Finish(String),
    /// Try again after waiting this many milliseconds.
    RetryAfter(u64),
}

/// Whether the registry lets an agent run.
pub open spec fn agent_allowed(agent: Seq<char>) -> bool {
    match tool_spec(agent) {
        Some(s) => s.allowed,
        None => false,
    }
}

/// The report when the agent of an action is disabled.
pub open spec fn disabled_report(agent: Seq<char>) -> Seq<char> {
    "❌ Agent '"@ + agent + "' is currently disabled."@
}

/// The report of a successful attempt.
pub open spec fn completed_report(agent: Seq<char>, attempt: u64, reply: Seq<char>) -> Seq<char> {
    "✅ "@ + agent + " completed (attempt "@ + decimal(attempt as nat) + "): "@ + reply
}

/// The report when every attempt failed; `error` is the last failure.
pub open spec fn failed_report(agent: Seq<char>, error: Seq<char>) -> Seq<char> {
    "❌ "@ + agent + " failed after 3 attempts: "@ + error
}

pub struct MetaAgent;

impl MetaAgent {
    /// The agent that handles `action`.
    pub fn best_agent_for(action: &str) -> (r: &'static str)
        ensures
            r@ == agent_for(action@),
    {
        if str_eq(action, "speak") || str_eq(action, "listen") {
            "voice"
        } else if str_eq(action, "open_app") || str_eq(action, "screenshot") || str_eq(action, "input_text")
            || str_eq(action, "swipe") || str_eq(action, "tap") {
            "mobile"
        } else if str_eq(action, "search") || str_eq(action, "fetch") || str_eq(action, "browse") {
            "browser"
        } else if str_eq(action, "code") || str_eq(action, "build_app") {
            "coder"
        } else if str_eq(action, "calendar") {
            "calendar"
        } else if str_eq(action, "email") || str_eq(action, "send_email") {
            "gmail"
        } else if str_eq(action, "repair") || str_eq(action, "plan") || str_eq(action, "decompose") {
            "repair"
        } else {
            "brain"
        }
    }

    /// Starts the delegation of `action`: the agent to send it to, or the report that the
    /// agent is disabled.
    pub fn delegation_target(action: &str) -> (r: Result<&'static str, String>)
        ensures
            match r {
                Ok(agent) => agent@ == agent_for(action@) && agent_allowed(agent@),
                Err(report) => !agent_allowed(agent_for(action@)) && report@ == disabled_report(agent_for(action@)),
            },
    {
        let target = Self::best_agent_for(action);
        if !ToolRegistry::is_allowed(target) {
            let mut report = String::new();
            push_str(&mut report, "❌ Agent '");
            push_str(&mut report, target);
            push_str(&mut report, "' is currently disabled.");
            return Err(report);
        }
        Ok(target)
    }

    /// What the delegation to `agent` does after attempt `attempt` (from 1) came back with
    /// `outcome`: a reply finishes it; a failure is retried after `200 * attempt` ms, up to
    /// three attempts.
    pub fn delegation_step(agent: &str, attempt: u64, outcome: Result<String, String>) -> (r: Delegation)
        requires
            1 <= attempt <= DELEGATION_ATTEMPTS,
        ensures
            match outcome {
                Ok(reply) => r matches Delegation::Finish(report) && report@ == completed_report(agent@, attempt, reply@),
                Err(error) => if attempt < DELEGATION_ATTEMPTS {
                    r == Delegation::RetryAfter((200 * attempt) as u64)
                } else {
                    r matches Delegation::Finish(report) && report@ == failed_report(agent@, error@)
                },
            },
    {
        match outcome {
            Ok(reply) => {
                let mut report = String::new();
                push_str(&mut report, "✅ ");
                push_str(&mut report, agent);
                push_str(&mut report, " completed (attempt ");
                push_decimal(&mut report, attempt);
                push_str(&mut report, "): ");
                push_str(&mut report, reply.as_str());
                Delegation::Finish(report)
            },
            Err(error) => {
                if attempt < DELEGATION_ATTEMPTS {
                    Delegation::RetryAfter(200 * attempt)
                } else {
                    let mut report = String::new();
                    push_str(&mut report, "❌ ");
                    push_str(&mut report, agent);
                    push_str(&mut report, " failed after 3 attempts: ");
                    push_str(&mut report, error.as_str());
                    Delegation::Finish(report)
                }
            },
        }
    }

    /// The pending goal to work on next: the highest priority, then the oldest; among goals
    /// equal in both, the first.
    pub fn next_goal(goals: &[Goal]) -> (r: Option<Goal>)
        ensures
            match r {
                Some(g) => exists|i: int| {
                    &&& 0 <= i < goals@.len()
                    &&& goals@[i]@ == g@
                    &&& g.status == GoalStatus::Pending
                    &&& forall|j: int| 0 <= j < goals@.len() && goals@[j].status == GoalStatus::Pending
                        ==> key_le(next_key(g@), next_key(#[trigger] goals@[j]@))
                    &&& forall|j: int| 0 <= j < i && goals@[j].status == GoalStatus::Pending
                        ==> key_lt(next_key(g@), next_key(#[trigger] goals@[j]@))
                },
                None => forall|j: int| 0 <= j < goals@.len() ==> (#[trigger] goals@[j]).status != GoalStatus::Pending,
            },
    {
        let mut best: Option<usize> = None;
        let mut i: usize = 0;
        while i < goals.len()
            invariant
                i <= goals@.len(),
                match best {
                    Some(b) => {
                        &&& b < i
                        &&& goals@[b as int].status == GoalStatus::Pending
                        &&& forall|j: int| 0 <= j < i && goals@[j].status == GoalStatus::Pending
                            ==> key_le(next_key(goals@[b as int]@), next_key(#[trigger] goals@[j]@))
                        &&& forall|j: int| 0 <= j < b && goals@[j].status == GoalStatus::Pending
                            ==> key_lt(next_key(goals@[b as int]@), next_key(#[trigger] goals@[j]@))
                    },
                    None => forall|j: int| 0 <= j < i ==> (#[trigger] goals@[j]).status != GoalStatus::Pending,
                },
            decreases goals.len() - i,
        {
            if goals[i].status == GoalStatus::Pending {
                let take = match best {
                    None => true,
                    Some(b) => goals[i].priority > goals[b].priority || (goals[i].priority == goals[b].priority
                        && goals[i].created_tick < goals[b].created_tick),
                };
                if take {
                    best = Some(i);
                }
            }
            i = i + 1;
        }
        match best {
            Some(b) => Some(goals[b].clone()),
            None => None,
        }
    }

    /// Reports the active agents and the system figures (`stats`, as the resource monitor
    /// writes them).
    pub fn analyze_performance(agents: &Vec<String>, stats: &str) -> (r: String)
        ensures
            r@ == performance_report(agents@.map_values(|a: String| a@), stats@),
    {
        let ghost names = agents@.map_values(|a: String| a@);
        if agents.len() == 0 {
            let mut s = String::new();
            push_str(&mut s, "No active agents.");
            assert(s@ =~= "No active agents."@);
            return s;
        }
        let mut joined = String::new();
        let mut i: usize = 0;
        while i < agents.len()
            invariant
                i <= agents@.len(),
                names == agents@.map_values(|a: String| a@),
                joined@ == join(names.take(i as int), ", "@),
            decreases agents.len() - i,
        {
            proof {
                lemma_join_push(names.take(i as int), ", "@, agents@[i as int]@);
                assert(names.take(i + 1) =~= names.take(i as int).push(agents@[i as int]@));
            }
            if i > 0 {
                push_str(&mut joined, ", ");
            }
            push_str(&mut joined, agents[i].as_str());
            i = i + 1;
        }
        assert(names.take(agents@.len() as int) =~= names);
        let mut s = String::new();
        push_str(&mut s, "Active agents (");
        push_decimal(&mut s, agents.len() as u64);
        push_str(&mut s, "): ");
        push_str(&mut s, joined.as_str());
        push_str(&mut s, ". System: ");
        push_str(&mut s, stats);
        assert(s@ =~= performance_report(names, stats@));
        s
    }
}

/// The routing table: each agent handles exactly the actions listed for it (voice: speak,
/// listen; mobile: open_app, screenshot, input_text, swipe, tap; browser: search, fetch, browse;
/// coder: code, build_app; calendar: calendar; gmail: email, send_email; repair: repair, plan,
/// decompose), and every other action goes to the brain.
pub proof fn law_routing_table(action: Seq<char>)
    ensures
        agent_for(action) == "voice"@ <==> (action == "speak"@ || action == "listen"@),
        agent_for(action) == "mobile"@ <==> (action == "open_app"@ || action == "screenshot"@ || action == "input_text"@ || action == "swipe"@ || action == "tap"@),
        agent_for(action) == "browser"@ <==> (action == "search"@ || action == "fetch"@ || action == "browse"@),
        agent_for(action) == "coder"@ <==> (action == "code"@ || action == "build_app"@),
        agent_for(action) == "calendar"@ <==> (action == "calendar"@),
        agent_for(action) == "gmail"@ <==> (action == "email"@ || action == "send_email"@),
        agent_for(action) == "repair"@ <==> (action == "repair"@ || action == "plan"@ || action == "decompose"@),
        agent_for(action) == "brain"@ <==> !(action == "speak"@ || action == "listen"@ || action == "open_app"@ || action == "screenshot"@ || action == "input_text"@ || action == "swipe"@ || action == "tap"@ || action == "search"@ || action == "fetch"@ || action == "browse"@ || action == "code"@ || action == "build_app"@ || action == "calendar"@ || action == "email"@ || action == "send_email"@ || action == "repair"@ || action == "plan"@ || action == "decompose"@),
{
    reveal_strlit("brain");
    assert("brain"@.len() == 5 && "brain"@[0] == 'b' && "brain"@[1] == 'r');
    reveal_strlit("browse");
    assert("browse"@.len() == 6 && "browse"@[0] == 'b' && "browse"@[1] == 'r');
    reveal_strlit("browser");
    assert("browser"@.len() == 7 && "browser"@[0] == 'b' && "browser"@[1] == 'r');
    reveal_strlit("build_app");
    assert("build_app"@.len() == 9 && "build_app"@[0] == 'b' && "build_app"@[1] == 'u');
    reveal_strlit("calendar");
    assert("calendar"@.len() == 8 && "calendar"@[0] == 'c' && "calendar"@[1] == 'a');
    reveal_strlit("code");
    assert("code"@.len() == 4 && "code"@[0] == 'c' && "code"@[1] == 'o');
    reveal_strlit("coder");
    assert("coder"@.len() == 5 && "coder"@[0] == 'c' && "coder"@[1] == 'o');
    reveal_strlit("decompose");
    assert("decompose"@.len() == 9 && "decompose"@[0] == 'd' && "decompose"@[1] == 'e');
    reveal_strlit("email");
    assert("email"@.len() == 5 && "email"@[0] == 'e' && "email"@[1] == 'm');
    reveal_strlit("fetch");
    assert("fetch"@.len() == 5 && "fetch"@[0] == 'f' && "fetch"@[1] == 'e');
    reveal_strlit("gmail");
    assert("gmail"@.len() == 5 && "gmail"@[0] == 'g' && "gmail"@[1] == 'm');
    reveal_strlit("input_text");
    assert("input_text"@.len() == 10 && "input_text"@[0] == 'i' && "input_text"@[1] == 'n');
    reveal_strlit("listen");
    assert("listen"@.len() == 6 && "listen"@[0] == 'l' && "listen"@[1] == 'i');
    reveal_strlit("mobile");
    assert("mobile"@.len() == 6 && "mobile"@[0] == 'm' && "mobile"@[1] == 'o');
    reveal_strlit("open_app");
    assert("open_app"@.len() == 8 && "open_app"@[0] == 'o' && "open_app"@[1] == 'p');
    reveal_strlit("plan");
    assert("plan"@.len() == 4 && "plan"@[0] == 'p' && "plan"@[1] == 'l');
    reveal_strlit("repair");
    assert("repair"@.len() == 6 && "repair"@[0] == 'r' && "repair"@[1] == 'e');
    reveal_strlit("screenshot");
    assert("screenshot"@.len() == 10 && "screenshot"@[0] == 's' && "screenshot"@[1] == 'c');
    reveal_strlit("search");
    assert("search"@.len() == 6 && "search"@[0] == 's' && "search"@[1] == 'e');
    reveal_strlit("send_email");
    assert("send_email"@.len() == 10 && "send_email"@[0] == 's' && "send_email"@[1] == 'e');
    reveal_strlit("speak");
    assert("speak"@.len() == 5 && "speak"@[0] == 's' && "speak"@[1] == 'p');
    reveal_strlit("swipe");
    assert("swipe"@.len() == 5 && "swipe"@[0] == 's' && "swipe"@[1] == 'w');
    reveal_strlit("tap");
    assert("tap"@.len() == 3 && "tap"@[0] == 't' && "tap"@[1] == 'a');
    reveal_strlit("voice");
    assert("voice"@.len() == 5 && "voice"@[0] == 'v' && "voice"@[1] == 'o');
}

/// Every action routed to a named agent can be delegated: the agent has a tool that may run;
/// only the brain, which takes the actions no agent lists, has none.
pub proof fn law_routed_agents_are_allowed(action: Seq<char>)
    ensures
        agent_for(action) != "brain"@ ==> agent_allowed(agent_for(action)),
        !agent_allowed("brain"@),
{
    crate::tool_registry::law_registered_tools(agent_for(action));
    crate::tool_registry::law_registered_tools("brain"@);
    reveal_strlit("vision");
    assert("vision"@.len() == 6);
    reveal_strlit("brain");
    assert("brain"@.len() == 5 && "brain"@[0] == 'b' && "brain"@[1] == 'r');
    reveal_strlit("browse");
    assert("browse"@.len() == 6 && "browse"@[0] == 'b' && "browse"@[1] == 'r');
    reveal_strlit("browser");
    assert("browser"@.len() == 7 && "browser"@[0] == 'b' && "browser"@[1] == 'r');
    reveal_strlit("build_app");
    assert("build_app"@.len() == 9 && "build_app"@[0] == 'b' && "build_app"@[1] == 'u');
    reveal_strlit("calendar");
    assert("calendar"@.len() == 8 && "calendar"@[0] == 'c' && "calendar"@[1] == 'a');
    reveal_strlit("code");
    assert("code"@.len() == 4 && "code"@[0] == 'c' && "code"@[1] == 'o');
    reveal_strlit("coder");
    assert("coder"@.len() == 5 && "coder"@[0] == 'c' && "coder"@[1] == 'o');
    reveal_strlit("decompose");
    assert("decompose"@.len() == 9 && "decompose"@[0] == 'd' && "decompose"@[1] == 'e');
    reveal_strlit("email");
    assert("email"@.len() == 5 && "email"@[0] == 'e' && "email"@[1] == 'm');
    reveal_strlit("fetch");
    assert("fetch"@.len() == 5 && "fetch"@[0] == 'f' && "fetch"@[1] == 'e');
    reveal_strlit("gmail");
    assert("gmail"@.len() == 5 && "gmail"@[0] == 'g' && "gmail"@[1] == 'm');
    reveal_strlit("input_text");
    assert("input_text"@.len() == 10 && "input_text"@[0] == 'i' && "input_text"@[1] == 'n');
    reveal_strlit("listen");
    assert("listen"@.len() == 6 && "listen"@[0] == 'l' && "listen"@[1] == 'i');
    reveal_strlit("mobile");
    assert("mobile"@.len() == 6 && "mobile"@[0] == 'm' && "mobile"@[1] == 'o');
    reveal_strlit("open_app");
    assert("open_app"@.len() == 8 && "open_app"@[0] == 'o' && "open_app"@[1] == 'p');
    reveal_strlit("plan");
    assert("plan"@.len() == 4 && "plan"@[0] == 'p' && "plan"@[1] == 'l');
    reveal_strlit("repair");
    assert("repair"@.len() == 6 && "repair"@[0] == 'r' && "repair"@[1] == 'e');
    reveal_strlit("screenshot");
    assert("screenshot"@.len() == 10 && "screenshot"@[0] == 's' && "screenshot"@[1] == 'c');
    reveal_strlit("search");
    assert("search"@.len() == 6 && "search"@[0] == 's' && "search"@[1] == 'e');
    reveal_strlit("send_email");
    assert("send_email"@.len() == 10 && "send_email"@[0] == 's' && "send_email"@[1] == 'e');
    reveal_strlit("speak");
    assert("speak"@.len() == 5 && "speak"@[0] == 's' && "speak"@[1] == 'p');
    reveal_strlit("swipe");
    assert("swipe"@.len() == 5 && "swipe"@[0] == 's' && "swipe"@[1] == 'w');
    reveal_strlit("tap");
    assert("tap"@.len() == 3 && "tap"@[0] == 't' && "tap"@[1] == 'a');
    reveal_strlit("voice");
    assert("voice"@.len() == 5 && "voice"@[0] == 'v' && "voice"@[1] == 'o');
}

/// The next goal is chosen by priority first, the higher the sooner, and among goals of equal
/// priority by age, the older the sooner.
pub proof fn law_next_key_order(a: GoalView, b: GoalView)
    ensures
        key_lt(next_key(a), next_key(b)) <==> (a.priority > b.priority || (a.priority == b.priority
            && a.created_tick < b.created_tick)),
{
}

} // verus!
