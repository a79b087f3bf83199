//! The planner agent: asks a model what to do next given the recent events, and turns the
//! answer into workflow commands.

use vstd::prelude::*;
use vstd::string::StrSliceExecFns;
use crate::event::Event;
use crate::sandbox::{answers, call_groq_via_curl, call_ollama};
use crate::state::WorkflowState;
use crate::text::{char_index_from, decimal, find_char, push_char, push_decimal, push_str, str_eq};

verus! {

/// The definition of a workflow to register.
#[derive(Debug)]
pub struct WorkflowDefinition {
    pub workflow_id: u64,
    pub name: String,
    pub version: u32,
}

/// A command on the workflows.
#[derive(Debug)]
pub enum WorkflowCommand {
    Register(WorkflowDefinition),
    Transition { workflow_id: u64, new_state: WorkflowState },
}

/// A command taken by value, with text as characters.
pub enum CommandView {
    Register { workflow_id: u64, name: Seq<char>, version: u32 },
    Transition { workflow_id: u64, new_state: WorkflowState },
}

pub open spec fn command_view(c: WorkflowCommand) -> CommandView {
    match c {
        WorkflowCommand::Register(d) => CommandView::Register { workflow_id: d.workflow_id, name: d.name@, version: d.version },
        WorkflowCommand::Transition { workflow_id, new_state } => CommandView::Transition { workflow_id, new_state },
    }
}

pub open spec fn command_views(v: Seq<WorkflowCommand>) -> Seq<CommandView> {
    v.map_values(|c: WorkflowCommand| command_view(c))
}

/// What `serde_json` reads from the text of a plan: `None` when it is no JSON; otherwise the
/// `command` field as a string, the `workflow_id` field as a `u64` and the `new_state` field as
/// a string, each `None` when missing or of another kind.
pub uninterp spec fn json_plan_fields(text: Seq<char>) -> Option<(Option<Seq<char>>, Option<u64>, Option<Seq<char>>)>;

/// The fields of a plan read as plain values.
pub type PlanFields = Option<(Option<String>, Option<u64>, Option<String>)>;

pub open spec fn plan_fields_view(f: PlanFields) -> Option<(Option<Seq<char>>, Option<u64>, Option<Seq<char>>)> {
    match f {
        None => None,
        Some((c, w, s)) => Some((
            match c { Some(t) => Some(t@), None => None },
            w,
            match s { Some(t) => Some(t@), None => None },
        )),
    }
}

/// Reads a plan as JSON (`serde_json::from_str::<Value>`) and takes its three fields
/// (`as_str`, `as_u64`, `as_str`).
#[verifier::external_body]
fn read_plan_fields(text: &str) -> (r: PlanFields)
    ensures
        plan_fields_view(r) == json_plan_fields(text@),
{
    match serde_json::from_str::<serde_json::Value>(text) {
        Ok(json) => Some((
            json["command"].as_str().map(str::to_owned),
            json["workflow_id"].as_u64(),
            json["new_state"].as_str().map(str::to_owned),
        )),
        Err(_) => None,
    }
}

/// The text from the first `{` on, or nothing when there is no `{`.
pub open spec fn from_first_brace(s: Seq<char>) -> Seq<char> {
    s.skip(char_index_from(s, '{', 0))
}

/// The name that the planner gives its workflows: `llm_wf_{agent_id}`.
pub open spec fn workflow_name(agent_id: u64) -> Seq<char> {
    "llm_wf_"@ + decimal(agent_id as nat)
}

/// The fallback plan: register workflow `200 + agent_id`.
pub open spec fn basic_plan(agent_id: u64) -> Seq<CommandView> {
    seq![CommandView::Register { workflow_id: (200 + agent_id) as u64, name: workflow_name(agent_id), version: 1 }]
}

/// The commands of a plan with the given fields.
pub open spec fn plan_of(agent_id: u64, fields: Option<(Option<Seq<char>>, Option<u64>, Option<Seq<char>>)>) -> Seq<CommandView> {
    match fields {
        None => basic_plan(agent_id),
        Some((command, workflow_id, new_state)) => {
            let id = match workflow_id { Some(w) => w, None => (200 + agent_id) as u64 };
            if command == Some("Register"@) {
                seq![CommandView::Register { workflow_id: id, name: workflow_name(agent_id), version: 1 }]
            } else if command == Some("Transition"@) {
                let state = if new_state == Some("Running"@) { WorkflowState::Running } else { WorkflowState::Ready };
                seq![CommandView::Transition { workflow_id: id, new_state: state }]
            } else {
                basic_plan(agent_id)
            }
        },
    }
}

/// One line of the planning request: `- [tick {tick}] {payload}`.
pub open spec fn event_line(e: Event) -> Seq<char> {
    "- [tick "@ + decimal(e.tick as nat) + "] "@ + e.payload@ + seq!['\n']
}

/// The lines of the last `k` events, latest first.
pub open spec fn recent_lines(events: Seq<Event>, k: nat) -> Seq<char>
    decreases k,
{
    if k == 0 || k > events.len() {
        Seq::empty()
    } else {
        recent_lines(events, (k - 1) as nat) + event_line(events[events.len() - k])
    }
}

/// How many recent events the planning request shows.
pub const RECENT_EVENTS: usize = 5;

/// The planning request for `events`: the last five of them, latest first.
pub open spec fn planning_prompt(events: Seq<Event>) -> Seq<char> {
    let k = if events.len() < 5 { events.len() } else { 5 };
    "You are a planning agent...\n"@ + recent_lines(events, k) + "\nSuggest next command."@
}

/// The answer used when no model answers.
pub open spec fn simulated_answer(agent_id: u64) -> Seq<char> {
    "LLM simulation: {\"command\":\"Register\",\"workflow_id\":"@ + decimal((200 + agent_id) as nat) + "}"@
}

fn push_workflow_name(s: &mut String, agent_id: u64)
    ensures
        final(s)@ == old(s)@ + workflow_name(agent_id),
{
    push_str(s, "llm_wf_");
    push_decimal(s, agent_id);
}

fn register_command(workflow_id: u64, agent_id: u64) -> (r: WorkflowCommand)
    ensures
        command_view(r) == (CommandView::Register { workflow_id, name: workflow_name(agent_id), version: 1 }),
{
    let mut name = String::new();
    push_workflow_name(&mut name, agent_id);
    assert(name@ =~= workflow_name(agent_id));
    WorkflowCommand::Register(WorkflowDefinition { workflow_id, name, version: 1 })
}

pub struct PlannerAgent {
    agent_id: u64,
}

impl PlannerAgent {
    pub closed spec fn agent_id(&self) -> u64 {
        self.agent_id
    }

    pub fn new(agent_id: u64) -> (r: Self)
        ensures
            r.agent_id() == agent_id,
    {
        PlannerAgent { agent_id }
    }

    /// Plans the next step: asks `chat` with the recent events and reads its answer.
    pub fn think_deep<L: Fn(&str) -> String>(&self, events: &[Event], chat: L) -> (r: Vec<WorkflowCommand>)
        requires
            self.agent_id() <= u64::MAX - 200,
            forall|s: &str| #[trigger] chat.requires((s,)),
        ensures
            exists|answer: String|
                answers(chat, planning_prompt(events@), answer) && #[trigger] command_views(r@) == plan_of(
                    self.agent_id(),
                    json_plan_fields(from_first_brace(answer@)),
                ),
    {
        let prompt = Self::build_prompt(events);
        let answer = self.query_llm(prompt.as_str(), chat);
        let r = self.parse_plan(answer.as_str());
        assert(command_views(r@) == plan_of(self.agent_id(), json_plan_fields(from_first_brace(answer@))));
        r
    }

    /// The planning request for `events`.
    fn build_prompt(events: &[Event]) -> (r: String)
        ensures
            r@ == planning_prompt(events@),
    {
        let n = events.len();
        let k: usize = if n < RECENT_EVENTS { n } else { RECENT_EVENTS };
        let mut lines = String::new();
        let mut j: usize = 0;
        while j < k
            invariant
                n == events@.len(),
                k <= n,
                j <= k,
                lines@ == recent_lines(events@, j as nat),
            decreases k - j,
        {
            let e = &events[n - 1 - j];
            push_str(&mut lines, "- [tick ");
            push_decimal(&mut lines, e.tick);
            push_str(&mut lines, "] ");
            push_str(&mut lines, e.payload.as_str());
            push_char(&mut lines, '\n');
            j = j + 1;
            assert(lines@ =~= recent_lines(events@, j as nat));
        }
        let mut p = String::new();
        push_str(&mut p, "You are a planning agent...\n");
        push_str(&mut p, lines.as_str());
        push_str(&mut p, "\nSuggest next command.");
        assert(p@ =~= planning_prompt(events@));
        p
    }

    /// Asks the local model, then the hosted one; the simulated answer is the last resort.
    fn query_llm<L: Fn(&str) -> String>(&self, prompt: &str, chat: L) -> (r: String)
        requires
            self.agent_id() <= u64::MAX - 200,
            forall|s: &str| #[trigger] chat.requires((s,)),
        ensures
            answers(chat, prompt@, r),
    {
        if let Ok(r) = call_ollama(prompt, &chat) {
            return r;
        }
        if let Ok(r) = call_groq_via_curl(prompt, &chat) {
            return r;
        }
        let mut r = String::new();
        push_str(&mut r, "LLM simulation: {\"command\":\"Register\",\"workflow_id\":");
        push_decimal(&mut r, 200 + self.agent_id);
        push_str(&mut r, "}");
        r
    }

    /// Reads the commands of a plan from the JSON that starts at its first `{`.
    fn parse_plan(&self, response: &str) -> (r: Vec<WorkflowCommand>)
        requires
            self.agent_id() <= u64::MAX - 200,
        ensures
            command_views(r@) == plan_of(self.agent_id(), json_plan_fields(from_first_brace(response@))),
    {
        let n = response.unicode_len();
        let i = find_char(response, '{', 0);
        let json_text = response.substring_char(i, n);
        assert(json_text@ =~= from_first_brace(response@));
        let fields = read_plan_fields(json_text);
        self.plan_from_fields(fields)
    }

    /// The commands of a plan whose JSON fields are `fields` (`None` when it was no JSON).
    pub fn plan_from_fields(&self, fields: PlanFields) -> (r: Vec<WorkflowCommand>)
        requires
            self.agent_id() <= u64::MAX - 200,
        ensures
            command_views(r@) == plan_of(self.agent_id(), plan_fields_view(fields)),
    {
        let fallback = 200 + self.agent_id;
        let mut r: Vec<WorkflowCommand> = Vec::new();
        match fields {
            None => {
                r.push(register_command(fallback, self.agent_id));
            },
            Some((command, workflow_id, new_state)) => {
                let id = match workflow_id {
                    Some(w) => w,
                    None => fallback,
                };
                let c = match &command {
                    Some(t) => t.as_str(),
                    None => "",
                };
                if command.is_some() && str_eq(c, "Register") {
                    r.push(register_command(id, self.agent_id));
                } else if command.is_some() && str_eq(c, "Transition") {
                    let s = match &new_state {
                        Some(t) => t.as_str(),
                        None => "Ready",
                    };
                    let state = if new_state.is_some() && str_eq(s, "Running") {
                        WorkflowState::Running
                    } else {
                        WorkflowState::Ready
                    };
                    r.push(WorkflowCommand::Transition { workflow_id: id, new_state: state });
                } else {
                    r.push(register_command(fallback, self.agent_id));
                }
            },
        }
        assert(command_views(r@) =~= plan_of(self.agent_id(), plan_fields_view(fields)));
        r
    }

    /// Wraps serialized commands (their JSON, one per command) into events `WF:{json}` with
    /// consecutive ids from `base_id`, all at `tick`.
    pub fn commands_to_events(&self, command_json: &Vec<String>, base_id: u64, tick: u64) -> (r: Vec<Event>)
        requires
            base_id + command_json@.len() <= u64::MAX,
        ensures
            r@.len() == command_json@.len(),
            forall|i: int|
                0 <= i < r@.len() ==> {
                    let e = #[trigger] r@[i];
                    &&& e.id == base_id + i
                    &&& e.tick == tick
                    &&& e.event_type@ == "WorkflowCommand"@
                    &&& e.payload@ == "WF:"@ + command_json@[i]@
                    &&& e.parent_id is None
                    &&& e.vector_clock@ == Seq::<char>::empty()
                },
    {
        let mut r: Vec<Event> = Vec::new();
        let mut i: usize = 0;
        while i < command_json.len()
            invariant
                base_id + command_json@.len() <= u64::MAX,
                i <= command_json@.len(),
                r@.len() == i,
                forall|j: int|
                    0 <= j < i ==> {
                        let e = #[trigger] r@[j];
                        &&& e.id == base_id + j
                        &&& e.tick == tick
                        &&& e.event_type@ == "WorkflowCommand"@
                        &&& e.payload@ == "WF:"@ + command_json@[j]@
                        &&& e.parent_id is None
                        &&& e.vector_clock@ == Seq::<char>::empty()
                    },
            decreases command_json.len() - i,
        {
            let mut event_type = String::new();
            push_str(&mut event_type, "WorkflowCommand");
            let mut payload = String::new();
            push_str(&mut payload, "WF:");
            push_str(&mut payload, command_json[i].as_str());
            assert(event_type@ =~= "WorkflowCommand"@);
            r.push(Event {
                id: base_id + i as u64,
                tick,
                event_type,
                payload,
                parent_id: None,
                vector_clock: String::new(),
            });
            i = i + 1;
        }
        r
    }
}

/// A plan is one command. An answer with command `Register` registers the workflow the answer
/// names (workflow `200 + agent_id` only when it names none), as version 1 of `llm_wf_{agent_id}`;
/// an answer with command `Transition` moves the workflow it names (or `200 + agent_id`) to
/// `Running` when it asks for `Running`, else to `Ready`; any other answer, or one that is no
/// JSON, registers workflow `200 + agent_id`.
pub proof fn law_plan_acts_on_named_workflow(
    agent_id: u64,
    fields: Option<(Option<Seq<char>>, Option<u64>, Option<Seq<char>>)>,
)
    requires
        agent_id <= u64::MAX - 200,
    ensures
        plan_of(agent_id, fields).len() == 1,
        ({
            let c = plan_of(agent_id, fields)[0];
            match fields {
                Some((Some(command), named, new_state)) if command == "Register"@ => {
                    &&& c matches CommandView::Register { workflow_id, name, version }
                    &&& workflow_id == (match named { Some(w) => w, None => (200 + agent_id) as u64 })
                    &&& name == "llm_wf_"@ + decimal(agent_id as nat)
                    &&& version == 1
                },
                Some((Some(command), named, new_state)) if command == "Transition"@ => {
                    &&& c matches CommandView::Transition { workflow_id, new_state: state }
                    &&& workflow_id == (match named { Some(w) => w, None => (200 + agent_id) as u64 })
                    &&& (state == WorkflowState::Running <==> new_state == Some("Running"@))
                    &&& (state == WorkflowState::Running || state == WorkflowState::Ready)
                },
                _ => c == (CommandView::Register {
                    workflow_id: (200 + agent_id) as u64,
                    name: "llm_wf_"@ + decimal(agent_id as nat),
                    version: 1,
                }),
            }
        }),
{
    reveal_strlit("Register");
    reveal_strlit("Transition");
    assert("Register"@.len() == 8 && "Transition"@.len() == 10);
}

} // verus!
