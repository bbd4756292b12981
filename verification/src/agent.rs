//! The agent loop of one chat request, as a state machine.
//!
//! The HTTP layer performs the actions that the machine asks for (call the
//! model, read its stream, call an MCP tool) and hands each outcome back as
//! an input; the machine answers with the events to forward to the browser
//! and the next action.
use vstd::prelude::*;
use vstd::string::StringExecFns;
use vstd::pervasive::VecAdditionalExecFns;
use crate::json::{Json, JsonV, json_parse, json_serialize, parse_json, json_text, empty_object_v, push_member};
use crate::openrouter::{
    Message, MessageV, messages_view, AssistantToolCall, ToolCallFunction, ToolCallV, calls_view,
    StreamEvent, StreamEventV, ToolCallDelta, DeltaV,
};
use crate::text::{decimal, utf8_len, decimal_string};
use crate::handler::MAX_TOOL_ITERATIONS;

verus! {

/// A tool call being assembled from stream fragments.
#[derive(Debug)]
pub struct PartialToolCall {
    pub id: String,
    pub name: String,
    pub args: String,
}

/// A partial tool call, by its texts.
pub struct PartialV {
    pub id: Seq<char>,
    pub name: Seq<char>,
    pub args: Seq<char>,
}

impl View for PartialToolCall {
    type V = PartialV;

    open spec fn view(&self) -> PartialV {
        PartialV { id: self.id@, name: self.name@, args: self.args@ }
    }
}

/// Views of a list of partial tool calls.
pub open spec fn partials_view(ps: Seq<PartialToolCall>) -> Seq<PartialV> {
    ps.map_values(|p: PartialToolCall| p@)
}

/// A partial tool call that nothing has been said about yet.
pub open spec fn blank_partial() -> PartialV {
    PartialV { id: Seq::empty(), name: Seq::empty(), args: Seq::empty() }
}

/// Applies one tool-call fragment: the list grows with blank calls up to its
/// index; then an id or name in the fragment replaces the call's, and an
/// arguments fragment is appended to the call's arguments.
pub open spec fn apply_delta(ps: Seq<PartialV>, d: DeltaV) -> Seq<PartialV> {
    let idx = d.index as int;
    let grown = if ps.len() <= idx {
        ps + Seq::new((idx + 1 - ps.len()) as nat, |i: int| blank_partial())
    } else {
        ps
    };
    let p = grown[idx];
    grown.update(idx, PartialV {
        id: match d.id { Some(x) => x, None => p.id },
        name: match d.name { Some(x) => x, None => p.name },
        args: match d.args_delta { Some(a) => p.args + a, None => p.args },
    })
}

/// The id of an assembled call: its own, or `call_<iteration>` where it has none.
pub open spec fn call_id(p: PartialV, iteration: u32) -> Seq<char> {
    if p.id.len() == 0 { "call_"@ + decimal(iteration as nat) } else { p.id }
}

/// An assembled call: a function call whose arguments default to `{}`.
pub open spec fn call_of(p: PartialV, iteration: u32) -> ToolCallV {
    ToolCallV {
        id: call_id(p, iteration),
        kind: "function"@,
        name: p.name,
        arguments: if p.args.len() == 0 { "{}"@ } else { p.args },
    }
}

/// The calls assembled at the end of a turn: those partial calls that got a
/// name, in index order.
pub open spec fn calls_of(ps: Seq<PartialV>, iteration: u32) -> Seq<ToolCallV>
    decreases ps.len(),
{
    if ps.len() == 0 {
        Seq::empty()
    } else {
        let rest = calls_of(ps.drop_last(), iteration);
        if ps.last().name.len() > 0 { rest.push(call_of(ps.last(), iteration)) } else { rest }
    }
}

/// The arguments of a call as JSON: `{}` where they are not JSON.
pub open spec fn args_value(arguments: Seq<char>) -> JsonV {
    match json_parse(arguments) {
        Some(v) => v,
        None => empty_object_v(),
    }
}

/// The assistant message that closes a turn: text only where no tool was
/// called, else the calls with the text (where there is any).
pub open spec fn assistant_message(text: Seq<char>, calls: Seq<ToolCallV>) -> MessageV {
    if calls.len() == 0 {
        MessageV { role: "assistant"@, content: Some(text), tool_calls: Seq::empty(), tool_call_id: None }
    } else {
        MessageV {
            role: "assistant"@,
            content: if text.len() == 0 { None } else { Some(text) },
            tool_calls: calls,
            tool_call_id: None,
        }
    }
}

/// The message that carries a tool's result back to the model.
pub open spec fn tool_message(id: Seq<char>, content: Seq<char>) -> MessageV {
    MessageV { role: "tool"@, content: Some(content), tool_calls: Seq::empty(), tool_call_id: Some(id) }
}

/// `{"error": message}`.
pub open spec fn error_object(message: Seq<char>) -> JsonV {
    JsonV::Object(Map::empty().insert("error"@, JsonV::Str(message)))
}

/// What the model is told of a tool's outcome: its text, or the error as `{"error": ...}`.
pub open spec fn outcome_content(o: Result<Seq<char>, Seq<char>>) -> Seq<char> {
    match o {
        Ok(t) => t,
        Err(m) => json_serialize(error_object(m)),
    }
}

/// What the browser is told of a tool's outcome: `returned N chars` (N the
/// UTF-8 length, capped at 9999), or the error message.
pub open spec fn outcome_summary(o: Result<Seq<char>, Seq<char>>) -> Seq<char> {
    match o {
        Ok(t) => "returned "@ + decimal(if utf8_len(t) < 9999 { utf8_len(t) } else { 9999 }) + " chars"@,
        Err(m) => m,
    }
}

/// Where the loop stands.
#[derive(Clone, Copy, Debug, PartialEq, Eq, Structural)]
pub enum Phase {
    /// A model call was asked for; its stream is being read.
    Model,
    /// A tool call was asked for; its outcome is awaited.
    Tool,
    /// The run is over.
    Finished,
}

/// What the browser is sent.
#[derive(Debug)]
pub enum AgentEvent {
    Text(String),
    ToolCallStart { id: String, name: String, args: Json },
    ToolCallResult { id: String, ok: bool, summary: String },
    Error(String),
    Done,
}

/// An event, by its texts.
pub enum AgentEventV {
    Text(Seq<char>),
    ToolCallStart { id: Seq<char>, name: Seq<char>, args: JsonV },
    ToolCallResult { id: Seq<char>, ok: bool, summary: Seq<char> },
    Error(Seq<char>),
    Done,
}

impl View for AgentEvent {
    type V = AgentEventV;

    open spec fn view(&self) -> AgentEventV {
        match self {
            AgentEvent::Text(t) => AgentEventV::Text(t@),
            AgentEvent::ToolCallStart { id, name, args } => AgentEventV::ToolCallStart { id: id@, name: name@, args: args.model() },
            AgentEvent::ToolCallResult { id, ok, summary } => AgentEventV::ToolCallResult { id: id@, ok: *ok, summary: summary@ },
            AgentEvent::Error(m) => AgentEventV::Error(m@),
            AgentEvent::Done => AgentEventV::Done,
        }
    }
}

/// Views of a list of events.
pub open spec fn agent_events_view(es: Seq<AgentEvent>) -> Seq<AgentEventV> {
    es.map_values(|e: AgentEvent| e@)
}

/// What happened since the last step.
#[derive(Debug)]
pub enum AgentInput {
    /// The model could not be called.
    ModelUnavailable(String),
    /// The model's stream produced an event.
    Stream(StreamEvent),
    /// The model's stream broke off.
    StreamFailed(String),
    /// The model's stream ended.
    StreamEnded,
    /// The tool call finished with its text, or with an error message.
    ToolFinished(Result<String, String>),
}

/// An input, by its texts.
pub enum InputV {
    ModelUnavailable(Seq<char>),
    Stream(StreamEventV),
    StreamFailed(Seq<char>),
    StreamEnded,
    ToolFinished(Result<Seq<char>, Seq<char>>),
}

impl View for AgentInput {
    type V = InputV;

    open spec fn view(&self) -> InputV {
        match self {
            AgentInput::ModelUnavailable(m) => InputV::ModelUnavailable(m@),
            AgentInput::Stream(e) => InputV::Stream(e@),
            AgentInput::StreamFailed(m) => InputV::StreamFailed(m@),
            AgentInput::StreamEnded => InputV::StreamEnded,
            AgentInput::ToolFinished(Ok(t)) => InputV::ToolFinished(Ok(t@)),
            AgentInput::ToolFinished(Err(m)) => InputV::ToolFinished(Err(m@)),
        }
    }
}

/// What the driver must do next.
#[derive(Debug)]
pub enum AgentAction {
    /// Call the model with [`AgentRun::messages`] and the tool definitions.
    CallModel,
    /// Hand over the next outcome of the model's stream.
    ReadStream,
    /// Call the MCP tool `name` with `args`.
    CallTool { name: String, args: Json },
    /// The run is over.
    Stop,
}

/// An action, by its texts.
pub enum ActionV {
    CallModel,
    ReadStream,
    CallTool { name: Seq<char>, args: JsonV },
    Stop,
}

impl View for AgentAction {
    type V = ActionV;

    open spec fn view(&self) -> ActionV {
        match self {
            AgentAction::CallModel => ActionV::CallModel,
            AgentAction::ReadStream => ActionV::ReadStream,
            AgentAction::CallTool { name, args } => ActionV::CallTool { name: name@, args: args.model() },
            AgentAction::Stop => ActionV::Stop,
        }
    }
}

/// The state of a run, by its texts.
pub struct AgentV {
    pub messages: Seq<MessageV>,
    pub iteration: u32,
    pub phase: Phase,
    pub text: Seq<char>,
    pub partials: Seq<PartialV>,
    pub calls: Seq<ToolCallV>,
    pub next_call: int,
}

/// The event announcing a tool call.
pub open spec fn start_event(c: ToolCallV) -> AgentEventV {
    AgentEventV::ToolCallStart { id: c.id, name: c.name, args: args_value(c.arguments) }
}

/// The action performing a tool call.
pub open spec fn call_action(c: ToolCallV) -> ActionV {
    ActionV::CallTool { name: c.name, args: args_value(c.arguments) }
}

/// The run as it ends.
pub open spec fn finished(s: AgentV) -> AgentV {
    AgentV { phase: Phase::Finished, ..s }
}

/// One step of the agent loop.
pub open spec fn agent_step(s: AgentV, input: InputV) -> (AgentV, Seq<AgentEventV>, ActionV) {
    match s.phase {
        Phase::Finished => (s, Seq::empty(), ActionV::Stop),
        Phase::Model => match input {
            InputV::ModelUnavailable(e) =>
                (finished(s), seq![AgentEventV::Error("upstream error: "@ + e), AgentEventV::Done], ActionV::Stop),
            InputV::StreamFailed(e) =>
                (finished(s), seq![AgentEventV::Error("stream error: "@ + e), AgentEventV::Done], ActionV::Stop),
            InputV::Stream(StreamEventV::TextDelta(d)) =>
                (AgentV { text: s.text + d, ..s }, seq![AgentEventV::Text(d)], ActionV::ReadStream),
            InputV::Stream(StreamEventV::ToolCallDelta(d)) =>
                (AgentV { partials: apply_delta(s.partials, d), ..s }, Seq::empty(), ActionV::ReadStream),
            InputV::Stream(StreamEventV::Finish(_)) => (s, Seq::empty(), ActionV::ReadStream),
            InputV::StreamEnded => {
                let calls = calls_of(s.partials, s.iteration);
                let messages = s.messages.push(assistant_message(s.text, calls));
                if calls.len() == 0 {
                    (AgentV { messages, phase: Phase::Finished, ..s }, seq![AgentEventV::Done], ActionV::Stop)
                } else {
                    (
                        AgentV { messages, phase: Phase::Tool, calls, next_call: 0, ..s },
                        seq![start_event(calls[0])],
                        call_action(calls[0]),
                    )
                }
            },
            InputV::ToolFinished(_) => (s, Seq::empty(), ActionV::ReadStream),
        },
        Phase::Tool => {
            if !(0 <= s.next_call < s.calls.len()) {
                (finished(s), seq![AgentEventV::Done], ActionV::Stop)
            } else {
                let c = s.calls[s.next_call];
                match input {
                    InputV::ToolFinished(o) => {
                        let messages = s.messages.push(tool_message(c.id, outcome_content(o)));
                        let result = AgentEventV::ToolCallResult { id: c.id, ok: o is Ok, summary: outcome_summary(o) };
                        if s.next_call + 1 < s.calls.len() {
                            let c2 = s.calls[s.next_call + 1];
                            (
                                AgentV { messages, next_call: s.next_call + 1, ..s },
                                seq![result, start_event(c2)],
                                call_action(c2),
                            )
                        } else if s.iteration + 1 >= MAX_TOOL_ITERATIONS {
                            (
                                AgentV { messages, phase: Phase::Finished, ..s },
                                seq![result, AgentEventV::Error("conversation exceeded tool-call budget"@), AgentEventV::Done],
                                ActionV::Stop,
                            )
                        } else {
                            (
                                AgentV {
                                    messages,
                                    iteration: (s.iteration + 1) as u32,
                                    phase: Phase::Model,
                                    text: Seq::empty(),
                                    partials: Seq::empty(),
                                    calls: Seq::empty(),
                                    next_call: 0,
                                },
                                seq![result],
                                ActionV::CallModel,
                            )
                        }
                    },
                    _ => (s, Seq::empty(), call_action(c)),
                }
            }
        },
    }
}

/// The state of the agent loop of one chat request.
pub struct AgentRun {
    messages: Vec<Message>,
    iteration: u32,
    phase: Phase,
    text: String,
    partials: Vec<PartialToolCall>,
    calls: Vec<AssistantToolCall>,
    next_call: usize,
}

impl View for AgentRun {
    type V = AgentV;

    closed spec fn view(&self) -> AgentV {
        AgentV {
            messages: messages_view(self.messages@),
            iteration: self.iteration,
            phase: self.phase,
            text: self.text@,
            partials: partials_view(self.partials@),
            calls: calls_view(self.calls@),
            next_call: self.next_call as int,
        }
    }
}

/// Applies one tool-call fragment to the partial calls.
fn apply_delta_to(partials: &mut Vec<PartialToolCall>, d: ToolCallDelta)
    ensures
        partials_view(final(partials)@) == apply_delta(partials_view(old(partials)@), d@),
{
    let idx = d.index as usize;
    let ghost old_view = partials_view(partials@);
    while partials.len() <= idx
        invariant
            idx == d.index as usize,
            old_view.len() <= partials@.len(),
            old_view.len() <= idx ==> partials@.len() <= idx + 1,
            old_view.len() > idx ==> partials@.len() == old_view.len(),
            partials_view(partials@) == old_view + Seq::new((partials@.len() - old_view.len()) as nat, |i: int| blank_partial()),
        decreases idx + 1 - partials.len(),
    {
        let ghost before = partials_view(partials@);
        let blank = PartialToolCall { id: String::new(), name: String::new(), args: String::new() };
        assert(blank@ == blank_partial());
        partials.push(blank);
        assert(partials_view(partials@) =~= before.push(blank_partial()));
        assert(partials_view(partials@) =~= old_view + Seq::new((partials@.len() - old_view.len()) as nat, |i: int| blank_partial()));
    }
    let ghost grown = partials_view(partials@);
    assert(grown =~= if old_view.len() <= idx {
        old_view + Seq::new((idx + 1 - old_view.len()) as nat, |i: int| blank_partial())
    } else {
        old_view
    });
    let p = &partials[idx];
    let id = match d.id {
        Some(x) => x,
        None => p.id.clone(),
    };
    let name = match d.name {
        Some(x) => x,
        None => p.name.clone(),
    };
    let mut args = p.args.clone();
    match d.args_delta {
        Some(a) => args.append(a.as_str()),
        None => {},
    }
    partials.set(idx, PartialToolCall { id, name, args });
    assert(partials_view(partials@) =~= apply_delta(old_view, d@));
}

/// The calls assembled from the partial calls at the end of a turn.
fn calls_from(partials: &Vec<PartialToolCall>, iteration: u32) -> (r: Vec<AssistantToolCall>)
    ensures
        calls_view(r@) == calls_of(partials_view(partials@), iteration),
{
    let mut out: Vec<AssistantToolCall> = Vec::new();
    let mut k: usize = 0;
    while k < partials.len()
        invariant
            k <= partials@.len(),
            calls_view(out@) == calls_of(partials_view(partials@).take(k as int), iteration),
        decreases partials.len() - k,
    {
        let ghost pv = partials_view(partials@);
        assert(pv.take(k + 1).drop_last() =~= pv.take(k as int));
        assert(pv.take(k + 1).last() == partials@[k as int]@);
        let p = &partials[k];
        if !p.name.as_str().is_empty() {
            let id = if p.id.as_str().is_empty() {
                let mut s = String::from_str("call_");
                let n = decimal_string(iteration as u64);
                s.append(n.as_str());
                s
            } else {
                p.id.clone()
            };
            let arguments = if p.args.as_str().is_empty() { String::from_str("{}") } else { p.args.clone() };
            let ghost before = calls_view(out@);
            out.push(AssistantToolCall {
                id,
                kind: String::from_str("function"),
                function: ToolCallFunction { name: p.name.clone(), arguments },
            });
            assert(calls_view(out@) =~= before.push(call_of(partials@[k as int]@, iteration)));
        }
        k += 1;
    }
    assert(partials_view(partials@).take(partials@.len() as int) =~= partials_view(partials@));
    out
}

/// The announcement of a tool call and the action performing it.
fn start_of(c: &AssistantToolCall) -> (r: (AgentEvent, AgentAction))
    ensures
        r.0@ == start_event(c@),
        r.1@ == call_action(c@),
{
    let args = match parse_json(c.function.arguments.as_str()) {
        Some(v) => v,
        None => crate::json::empty_object(),
    };
    let args2 = args.duplicate();
    (
        AgentEvent::ToolCallStart { id: c.id.clone(), name: c.function.name.clone(), args },
        AgentAction::CallTool { name: c.function.name.clone(), args: args2 },
    )
}

/// What the model and the browser are told of a tool's outcome.
fn outcome_parts(o: &Result<String, String>) -> (r: (bool, String, String))
    ensures
        ({
            let ov = match o { Ok(t) => Ok::<Seq<char>, Seq<char>>(t@), Err(m) => Err::<Seq<char>, Seq<char>>(m@) };
            r.0 == o is Ok && r.1@ == outcome_content(ov) && r.2@ == outcome_summary(ov)
        }),
{
    match o {
        Ok(t) => {
            let ts = t.as_str();
            let n = ts.as_bytes().len();
            let capped: usize = if n < 9999 { n } else { 9999 };
            let mut summary = String::from_str("returned ");
            let digits = decimal_string(capped as u64);
            summary.append(digits.as_str());
            summary.append(" chars");
            (true, t.clone(), summary)
        },
        Err(m) => {
            let mut members: Vec<(String, Json)> = Vec::new();
            push_member(&mut members, String::from_str("error"), Json::Str(m.clone()));
            let obj = Json::Object(members);
            (false, json_text(&obj), m.clone())
        },
    }
}

impl AgentRun {
    /// A run that starts from `messages`; its first action is to call the model.
    pub fn new(messages: Vec<Message>) -> (r: AgentRun)
        ensures
            r@ == (AgentV {
                messages: messages_view(messages@),
                iteration: 0,
                phase: Phase::Model,
                text: Seq::empty(),
                partials: Seq::empty(),
                calls: Seq::empty(),
                next_call: 0,
            }),
    {
        let r = AgentRun {
            messages,
            iteration: 0,
            phase: Phase::Model,
            text: String::new(),
            partials: Vec::new(),
            calls: Vec::new(),
            next_call: 0,
        };
        assert(partials_view(r.partials@) =~= Seq::<PartialV>::empty());
        assert(calls_view(r.calls@) =~= Seq::<ToolCallV>::empty());
        r
    }

    /// The transcript so far, to be sent with the next model call.
    pub fn messages(&self) -> (r: &Vec<Message>)
        ensures
            messages_view(r@) == self@.messages,
    {
        &self.messages
    }

    /// Whether the run is over.
    pub fn is_finished(&self) -> (r: bool)
        ensures
            r == (self@.phase == Phase::Finished),
    {
        match self.phase {
            Phase::Finished => true,
            _ => false,
        }
    }

    /// Takes the outcome of the last action; returns the events for the
    /// browser and the next action.
    pub fn step(&mut self, input: AgentInput) -> (r: (Vec<AgentEvent>, AgentAction))
        ensures
            (final(self)@, agent_events_view(r.0@), r.1@) == agent_step(old(self)@, input@),
    {
        let ghost s = self@;
        match self.phase {
            Phase::Finished => {
                let out: Vec<AgentEvent> = Vec::new();
                assert(agent_events_view(out@) =~= Seq::<AgentEventV>::empty());
                (out, AgentAction::Stop)
            },
            Phase::Model => match input {
                AgentInput::ModelUnavailable(e) => {
                    self.phase = Phase::Finished;
                    let mut msg = String::from_str("upstream error: ");
                    msg.append(e.as_str());
                    let out = vec![AgentEvent::Error(msg), AgentEvent::Done];
                    assert(agent_events_view(out@) =~= seq![AgentEventV::Error("upstream error: "@ + e@), AgentEventV::Done]);
                    (out, AgentAction::Stop)
                },
                AgentInput::StreamFailed(e) => {
                    self.phase = Phase::Finished;
                    let mut msg = String::from_str("stream error: ");
                    msg.append(e.as_str());
                    let out = vec![AgentEvent::Error(msg), AgentEvent::Done];
                    assert(agent_events_view(out@) =~= seq![AgentEventV::Error("stream error: "@ + e@), AgentEventV::Done]);
                    (out, AgentAction::Stop)
                },
                AgentInput::Stream(StreamEvent::TextDelta(d)) => {
                    self.text.append(d.as_str());
                    let ghost dv = d@;
                    let out = vec![AgentEvent::Text(d)];
                    assert(agent_events_view(out@) =~= seq![AgentEventV::Text(dv)]);
                    (out, AgentAction::ReadStream)
                },
                AgentInput::Stream(StreamEvent::ToolCallDelta(d)) => {
                    apply_delta_to(&mut self.partials, d);
                    let out: Vec<AgentEvent> = Vec::new();
                    assert(agent_events_view(out@) =~= Seq::<AgentEventV>::empty());
                    (out, AgentAction::ReadStream)
                },
                AgentInput::Stream(StreamEvent::Finish { reason: _ }) => {
                    let out: Vec<AgentEvent> = Vec::new();
                    assert(agent_events_view(out@) =~= Seq::<AgentEventV>::empty());
                    (out, AgentAction::ReadStream)
                },
                AgentInput::StreamEnded => {
                    let calls = calls_from(&self.partials, self.iteration);
                    let kept = calls_from(&self.partials, self.iteration);
                    let ghost cv = calls_view(calls@);
                    let msg = if calls.len() == 0 {
                        Message::assistant_text(self.text.clone())
                    } else {
                        let text = if self.text.as_str().is_empty() { None } else { Some(self.text.clone()) };
                        Message::assistant_tool_calls(text, calls)
                    };
                    assert(msg@ == assistant_message(s.text, cv));
                    self.messages.push(msg);
                    assert(messages_view(self.messages@) =~= s.messages.push(assistant_message(s.text, cv)));
                    if kept.len() == 0 {
                        self.phase = Phase::Finished;
                        let out = vec![AgentEvent::Done];
                        assert(agent_events_view(out@) =~= seq![AgentEventV::Done]);
                        (out, AgentAction::Stop)
                    } else {
                        let (ev, act) = start_of(&kept[0]);
                        self.calls = kept;
                        self.next_call = 0;
                        self.phase = Phase::Tool;
                        let ghost evv = ev@;
                        let out = vec![ev];
                        assert(agent_events_view(out@) =~= seq![evv]);
                        (out, act)
                    }
                },
                AgentInput::ToolFinished(_) => {
                    let out: Vec<AgentEvent> = Vec::new();
                    assert(agent_events_view(out@) =~= Seq::<AgentEventV>::empty());
                    (out, AgentAction::ReadStream)
                },
            },
            Phase::Tool => {
                if self.next_call >= self.calls.len() {
                    self.phase = Phase::Finished;
                    let out = vec![AgentEvent::Done];
                    assert(agent_events_view(out@) =~= seq![AgentEventV::Done]);
                    return (out, AgentAction::Stop);
                }
                match input {
                    AgentInput::ToolFinished(o) => {
                        let (ok, content, summary) = outcome_parts(&o);
                        let id = self.calls[self.next_call].id.clone();
                        let ghost c = s.calls[s.next_call];
                        assert(c == self.calls@[self.next_call as int]@);
                        self.messages.push(Message::tool(id.clone(), content));
                        let ghost ov = match o { Ok(t) => Ok::<Seq<char>, Seq<char>>(t@), Err(m) => Err::<Seq<char>, Seq<char>>(m@) };
                        assert(input@ == InputV::ToolFinished(ov));
                        assert(messages_view(self.messages@) =~= s.messages.push(tool_message(c.id, outcome_content(ov))));
                        let result = AgentEvent::ToolCallResult { id, ok, summary };
                        let ghost rv = result@;
                        if self.next_call + 1 < self.calls.len() {
                            self.next_call = self.next_call + 1;
                            let (ev, act) = start_of(&self.calls[self.next_call]);
                            let ghost evv = ev@;
                            let out = vec![result, ev];
                            assert(agent_events_view(out@) =~= seq![rv, evv]);
                            (out, act)
                        } else if self.iteration >= MAX_TOOL_ITERATIONS - 1 {
                            self.phase = Phase::Finished;
                            let out = vec![
                                result,
                                AgentEvent::Error(String::from_str("conversation exceeded tool-call budget")),
                                AgentEvent::Done,
                            ];
                            assert(agent_events_view(out@) =~= seq![rv, AgentEventV::Error("conversation exceeded tool-call budget"@), AgentEventV::Done]);
                            (out, AgentAction::Stop)
                        } else {
                            self.iteration = self.iteration + 1;
                            self.phase = Phase::Model;
                            self.text = String::new();
                            self.partials = Vec::new();
                            self.calls = Vec::new();
                            self.next_call = 0;
                            assert(partials_view(self.partials@) =~= Seq::<PartialV>::empty());
                            assert(calls_view(self.calls@) =~= Seq::<ToolCallV>::empty());
                            let out = vec![result];
                            assert(agent_events_view(out@) =~= seq![rv]);
                            (out, AgentAction::CallModel)
                        }
                    },
                    _ => {
                        let (_ev, act) = start_of(&self.calls[self.next_call]);
                        let out: Vec<AgentEvent> = Vec::new();
                        assert(agent_events_view(out@) =~= Seq::<AgentEventV>::empty());
                        (out, act)
                    },
                }
            },
        }
    }
}

/// The states a run can reach: fewer than [`MAX_TOOL_ITERATIONS`] turns
/// completed, and, while a tool call is awaited, that call exists.
pub open spec fn agent_wf(s: AgentV) -> bool {
    &&& s.iteration < MAX_TOOL_ITERATIONS
    &&& s.phase == Phase::Tool ==> 0 <= s.next_call < s.calls.len()
}

/// Runs the loop over a sequence of inputs: the final state, all events sent,
/// and the number of model calls asked for.
pub open spec fn agent_run(s: AgentV, inputs: Seq<InputV>) -> (AgentV, Seq<AgentEventV>, nat)
    decreases inputs.len(),
{
    if inputs.len() == 0 {
        (s, Seq::empty(), 0)
    } else {
        let (s1, e1, a1) = agent_step(s, inputs[0]);
        let r = agent_run(s1, inputs.skip(1));
        (r.0, e1 + r.1, r.2 + if a1 is CallModel { 1nat } else { 0nat })
    }
}

/// A fresh run is well formed.
pub proof fn lemma_new_run_wf(messages: Seq<MessageV>)
    ensures
        agent_wf(AgentV {
            messages,
            iteration: 0,
            phase: Phase::Model,
            text: Seq::empty(),
            partials: Seq::empty(),
            calls: Seq::empty(),
            next_call: 0,
        }),
{
}

/// Every step keeps a run well formed.
pub proof fn lemma_step_keeps_wf(s: AgentV, input: InputV)
    requires
        agent_wf(s),
    ensures
        agent_wf(agent_step(s, input).0),
{
}

/// A finished run stays finished and sends nothing more.
pub proof fn lemma_finished_is_final(s: AgentV, inputs: Seq<InputV>)
    requires
        s.phase == Phase::Finished,
    ensures
        agent_run(s, inputs).0 == s,
        agent_run(s, inputs).1.len() == 0,
        agent_run(s, inputs).2 == 0,
    decreases inputs.len(),
{
    if inputs.len() > 0 {
        lemma_finished_is_final(s, inputs.skip(1));
    }
}

/// Within one step: the run stops exactly when it finishes; the `done` event is
/// sent exactly when a running loop stops, and it is the last event sent.
pub proof fn lemma_step_done(s: AgentV, input: InputV)
    ensures
        ({
            let (s2, evs, a) = agent_step(s, input);
            &&& (a is Stop <==> s2.phase == Phase::Finished)
            &&& (s.phase == Phase::Finished ==> evs.len() == 0 && s2 == s)
            &&& (s.phase != Phase::Finished && a is Stop ==> evs.len() > 0 && evs.last() is Done)
            &&& forall|k: int| 0 <= k < evs.len() && (#[trigger] evs[k]) is Done ==> k == evs.len() - 1 && a is Stop
        }),
{
}

/// Over any sequence of inputs, the loop sends the `done` event at most once,
/// and nothing after it.
pub proof fn lemma_run_done_last(s: AgentV, inputs: Seq<InputV>)
    ensures
        forall|k: int| 0 <= k < agent_run(s, inputs).1.len() && (#[trigger] agent_run(s, inputs).1[k]) is Done
            ==> k == agent_run(s, inputs).1.len() - 1,
    decreases inputs.len(),
{
    if s.phase == Phase::Finished {
        lemma_finished_is_final(s, inputs);
    } else if inputs.len() > 0 {
        let (s1, e1, a1) = agent_step(s, inputs[0]);
        lemma_step_done(s, inputs[0]);
        let rest = agent_run(s1, inputs.skip(1));
        if s1.phase == Phase::Finished {
            lemma_finished_is_final(s1, inputs.skip(1));
            assert(e1 + rest.1 =~= e1);
        } else {
            lemma_run_done_last(s1, inputs.skip(1));
            let all = e1 + rest.1;
            assert forall|k: int| 0 <= k < all.len() && (#[trigger] all[k]) is Done implies k == all.len() - 1 by {
                if k < e1.len() {
                    assert(all[k] == e1[k]);
                } else {
                    assert(all[k] == rest.1[k - e1.len()]);
                }
            }
        }
    }
}

/// Each model call after the first starts a new turn: over any sequence of
/// inputs, the model calls asked for equal the turns added, so a request
/// makes at most [`MAX_TOOL_ITERATIONS`] model calls in all (the first one
/// included).
pub proof fn lemma_model_call_budget(s: AgentV, inputs: Seq<InputV>)
    requires
        agent_wf(s),
    ensures
        agent_wf(agent_run(s, inputs).0),
        agent_run(s, inputs).2 == agent_run(s, inputs).0.iteration - s.iteration,
        s.iteration + agent_run(s, inputs).2 < MAX_TOOL_ITERATIONS,
    decreases inputs.len(),
{
    if inputs.len() > 0 {
        lemma_step_keeps_wf(s, inputs[0]);
        let (s1, e1, a1) = agent_step(s, inputs[0]);
        lemma_model_call_budget(s1, inputs.skip(1));
        assert(a1 is CallModel ==> s1.iteration == s.iteration + 1);
        assert(!(a1 is CallModel) ==> s1.iteration == s.iteration);
    }
}

/// Every tool call is announced before it is performed, and its result is
/// reported under the same id: a step that asks for a tool call ends by
/// announcing that call (unless it only repeats a pending request), and the
/// step that takes a tool's outcome first reports the result of the pending call.
pub proof fn lemma_tool_calls_paired(s: AgentV, input: InputV)
    requires
        agent_wf(s),
    ensures
        ({
            let (s2, evs, a) = agent_step(s, input);
            &&& (a is CallTool ==> s2.phase == Phase::Tool && a == call_action(s2.calls[s2.next_call]))
            &&& (a is CallTool && evs.len() > 0 ==> evs.last() == start_event(s2.calls[s2.next_call]))
            &&& (s.phase == Phase::Tool && input is ToolFinished ==> evs.len() > 0
                && evs[0] is ToolCallResult && evs[0]->ToolCallResult_id == s.calls[s.next_call].id)
        }),
{
}

/// While the model's reply streams, every text delta is forwarded to the
/// browser unchanged and in order, blank ones included, and the reply kept for
/// the transcript is the running text followed by all of them; nothing else
/// about the run changes.
pub proof fn lemma_text_deltas_forwarded(s: AgentV, ds: Seq<Seq<char>>)
    requires
        s.phase == Phase::Model,
    ensures
        ({
            let r = agent_run(s, ds.map_values(|d: Seq<char>| InputV::Stream(StreamEventV::TextDelta(d))));
            &&& r.0 == AgentV { text: s.text + ds.flatten(), ..s }
            &&& r.1 == ds.map_values(|d: Seq<char>| AgentEventV::Text(d))
            &&& r.2 == 0
        }),
    decreases ds.len(),
{
    let inputs = ds.map_values(|d: Seq<char>| InputV::Stream(StreamEventV::TextDelta(d)));
    if ds.len() == 0 {
        assert(ds.flatten() =~= Seq::<char>::empty());
        assert(s.text + ds.flatten() =~= s.text);
        assert(ds.map_values(|d: Seq<char>| AgentEventV::Text(d)) =~= Seq::<AgentEventV>::empty());
    } else {
        let s1 = AgentV { text: s.text + ds[0], ..s };
        let rest = ds.drop_first();
        lemma_text_deltas_forwarded(s1, rest);
        assert(inputs.skip(1) =~= rest.map_values(|d: Seq<char>| InputV::Stream(StreamEventV::TextDelta(d))));
        assert(agent_step(s, inputs[0]) == (s1, seq![AgentEventV::Text(ds[0])], ActionV::ReadStream));
        assert(s1.text + rest.flatten() =~= s.text + ds.flatten());
        assert(seq![AgentEventV::Text(ds[0])] + rest.map_values(|d: Seq<char>| AgentEventV::Text(d))
            =~= ds.map_values(|d: Seq<char>| AgentEventV::Text(d)));
    }
}

/// How a tool's outcome is reported. A successful call is reported to the
/// browser as `returned N chars`, N being the UTF-8 byte length of the text
/// when that is under 9999 and 9999 otherwise, and the model gets the text
/// itself; a failed call is reported with its error message.
pub proof fn lemma_tool_outcome_reported(s: AgentV, o: Result<Seq<char>, Seq<char>>)
    requires
        s.phase == Phase::Tool,
        0 <= s.next_call < s.calls.len(),
    ensures
        ({
            let (s2, evs, a) = agent_step(s, InputV::ToolFinished(o));
            let id = s.calls[s.next_call].id;
            &&& evs.len() > 0
            &&& s2.messages.len() == s.messages.len() + 1
            &&& s2.messages.last().role == "tool"@
            &&& s2.messages.last().tool_call_id == Some(id)
            &&& match o {
                Ok(t) => {
                    &&& utf8_len(t) < 9999 ==> evs[0] == AgentEventV::ToolCallResult {
                        id,
                        ok: true,
                        summary: "returned "@ + decimal(utf8_len(t)) + " chars"@,
                    }
                    &&& utf8_len(t) >= 9999 ==> evs[0] == AgentEventV::ToolCallResult {
                        id,
                        ok: true,
                        summary: "returned "@ + decimal(9999) + " chars"@,
                    }
                    &&& s2.messages.last().content == Some(t)
                },
                Err(m) => evs[0] == AgentEventV::ToolCallResult { id, ok: false, summary: m },
            }
        }),
{
}

/// The transcript only grows: every step keeps the messages so far and adds
/// at most one.
pub proof fn lemma_messages_grow(s: AgentV, input: InputV)
    ensures
        ({
            let s2 = agent_step(s, input).0;
            &&& s.messages.len() <= s2.messages.len() <= s.messages.len() + 1
            &&& s2.messages.take(s.messages.len() as int) == s.messages
        }),
{
    let s2 = agent_step(s, input).0;
    assert(s2.messages.take(s.messages.len() as int) =~= s.messages);
}

/// Applies a sequence of tool-call fragments in order.
pub open spec fn apply_deltas(ps: Seq<PartialV>, ds: Seq<DeltaV>) -> Seq<PartialV>
    decreases ds.len(),
{
    if ds.len() == 0 {
        ps
    } else {
        apply_delta(apply_deltas(ps, ds.drop_last()), ds.last())
    }
}

/// The arguments fragments of the fragments with index `i`, joined in order.
pub open spec fn args_of_index(ds: Seq<DeltaV>, i: int) -> Seq<char>
    decreases ds.len(),
{
    if ds.len() == 0 {
        Seq::empty()
    } else {
        let d = ds.last();
        let rest = args_of_index(ds.drop_last(), i);
        if d.index as int == i {
            match d.args_delta { Some(a) => rest + a, None => rest }
        } else {
            rest
        }
    }
}

/// The name that the last fragment with index `i` that has one gives.
pub open spec fn name_of_index(ds: Seq<DeltaV>, i: int) -> Seq<char>
    decreases ds.len(),
{
    if ds.len() == 0 {
        Seq::empty()
    } else {
        let d = ds.last();
        if d.index as int == i && d.name is Some { d.name->0 } else { name_of_index(ds.drop_last(), i) }
    }
}

/// Streamed tool calls are reassembled faithfully: starting from no partial
/// calls, after any sequence of fragments the call at index `i` holds the
/// concatenation of the argument fragments for `i`, in the order they came,
/// and the last name given for `i`.
pub proof fn lemma_deltas_reassemble(ds: Seq<DeltaV>)
    ensures
        forall|i: int| 0 <= i < apply_deltas(Seq::empty(), ds).len() ==>
            (#[trigger] apply_deltas(Seq::empty(), ds)[i]).args == args_of_index(ds, i)
            && apply_deltas(Seq::empty(), ds)[i].name == name_of_index(ds, i),
    decreases ds.len(),
{
    if ds.len() > 0 {
        let init = ds.drop_last();
        lemma_deltas_reassemble(init);
        let ps = apply_deltas(Seq::empty(), init);
        let d = ds.last();
        let out = apply_delta(ps, d);
        assert forall|i: int| 0 <= i < out.len() implies (#[trigger] out[i]).args == args_of_index(ds, i)
            && out[i].name == name_of_index(ds, i) by {
            if i >= ps.len() {
                lemma_untouched_index(init, i);
            }
        }
    }
}

/// No fragment so far has touched an index past the list of partial calls.
pub proof fn lemma_untouched_index(ds: Seq<DeltaV>, i: int)
    requires
        i >= apply_deltas(Seq::empty(), ds).len(),
    ensures
        args_of_index(ds, i) == Seq::<char>::empty(),
        name_of_index(ds, i) == Seq::<char>::empty(),
    decreases ds.len(),
{
    if ds.len() > 0 {
        let init = ds.drop_last();
        let ps = apply_deltas(Seq::empty(), init);
        assert(apply_deltas(Seq::empty(), ds).len() >= ps.len());
        lemma_untouched_index(init, i);
    }
}

} // verus!
