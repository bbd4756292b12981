//! Chat-completions data types and the decoding of an OpenRouter event stream
//! into text deltas, tool-call deltas and finish events.
use vstd::prelude::*;
use vstd::string::StringExecFns;
use vstd::string::StringSliceAdditionalSpecFns;
use crate::json::{Json, JsonV, member, member_of, str_of, array_of, u64_of, models, lemma_models_index, json_parse, parse_json};
use crate::sse::{event_data, first_boundary, find_event_boundary, event_data_of, lemma_boundary_bounds, lemma_boundary_extend};
use crate::text::{chars_of, same_text};
use vstd::utf8::{valid_utf8, decode_utf8};

verus! {

/// `Option<String>` by its text.
pub open spec fn opt_text(o: Option<String>) -> Option<Seq<char>> {
    match o {
        Some(s) => Some(s@),
        None => None,
    }
}

/// A tool call that an assistant message asks for.
#[derive(Debug, Clone)]
pub struct AssistantToolCall {
    pub id: String,
    pub kind: String,
    pub function: ToolCallFunction,
}

/// Name and JSON-encoded arguments of a called function.
#[derive(Debug, Clone)]
pub struct ToolCallFunction {
    pub name: String,
    pub arguments: String,
}

/// One chat message in OpenAI/OpenRouter form.
#[derive(Debug, Clone)]
pub struct Message {
    pub role: String,
    pub content: Option<String>,
    pub tool_calls: Vec<AssistantToolCall>,
    pub tool_call_id: Option<String>,
}

/// A tool call, by its texts.
pub struct ToolCallV {
    pub id: Seq<char>,
    pub kind: Seq<char>,
    pub name: Seq<char>,
    pub arguments: Seq<char>,
}

/// A message, by its texts.
pub struct MessageV {
    pub role: Seq<char>,
    pub content: Option<Seq<char>>,
    pub tool_calls: Seq<ToolCallV>,
    pub tool_call_id: Option<Seq<char>>,
}

impl View for AssistantToolCall {
    type V = ToolCallV;

    open spec fn view(&self) -> ToolCallV {
        ToolCallV {
            id: self.id@,
            kind: self.kind@,
            name: self.function.name@,
            arguments: self.function.arguments@,
        }
    }
}

/// Views of a list of tool calls.
pub open spec fn calls_view(calls: Seq<AssistantToolCall>) -> Seq<ToolCallV> {
    calls.map_values(|c: AssistantToolCall| c@)
}

impl View for Message {
    type V = MessageV;

    open spec fn view(&self) -> MessageV {
        MessageV {
            role: self.role@,
            content: opt_text(self.content),
            tool_calls: calls_view(self.tool_calls@),
            tool_call_id: opt_text(self.tool_call_id),
        }
    }
}

/// Views of a list of messages.
pub open spec fn messages_view(ms: Seq<Message>) -> Seq<MessageV> {
    ms.map_values(|m: Message| m@)
}

impl Message {
    /// A system message.
    pub fn system(content: String) -> (m: Message)
        ensures
            m@ == (MessageV { role: "system"@, content: Some(content@), tool_calls: Seq::empty(), tool_call_id: None }),
    {
        let m = Message { role: String::from_str("system"), content: Some(content), tool_calls: Vec::new(), tool_call_id: None };
        assert(calls_view(m.tool_calls@) =~= Seq::<ToolCallV>::empty());
        m
    }

    /// A user message.
    pub fn user(content: String) -> (m: Message)
        ensures
            m@ == (MessageV { role: "user"@, content: Some(content@), tool_calls: Seq::empty(), tool_call_id: None }),
    {
        let m = Message { role: String::from_str("user"), content: Some(content), tool_calls: Vec::new(), tool_call_id: None };
        assert(calls_view(m.tool_calls@) =~= Seq::<ToolCallV>::empty());
        m
    }

    /// An assistant message holding text only.
    pub fn assistant_text(content: String) -> (m: Message)
        ensures
            m@ == (MessageV { role: "assistant"@, content: Some(content@), tool_calls: Seq::empty(), tool_call_id: None }),
    {
        let m = Message { role: String::from_str("assistant"), content: Some(content), tool_calls: Vec::new(), tool_call_id: None };
        assert(calls_view(m.tool_calls@) =~= Seq::<ToolCallV>::empty());
        m
    }

    /// An assistant message that asks for tool calls, with optional text.
    pub fn assistant_tool_calls(text: Option<String>, tool_calls: Vec<AssistantToolCall>) -> (m: Message)
        ensures
            m@ == (MessageV { role: "assistant"@, content: opt_text(text), tool_calls: calls_view(tool_calls@), tool_call_id: None }),
    {
        Message { role: String::from_str("assistant"), content: text, tool_calls, tool_call_id: None }
    }

    /// The result of the tool call `tool_call_id`.
    pub fn tool(tool_call_id: String, content: String) -> (m: Message)
        ensures
            m@ == (MessageV { role: "tool"@, content: Some(content@), tool_calls: Seq::empty(), tool_call_id: Some(tool_call_id@) }),
    {
        let m = Message { role: String::from_str("tool"), content: Some(content), tool_calls: Vec::new(), tool_call_id: Some(tool_call_id) };
        assert(calls_view(m.tool_calls@) =~= Seq::<ToolCallV>::empty());
        m
    }
}

/// A fragment of a streamed tool call.
#[derive(Debug, Clone, Default)]
pub struct ToolCallDelta {
    pub index: u32,
    pub id: Option<String>,
    pub name: Option<String>,
    pub args_delta: Option<String>,
}

/// One event of a streamed completion.
#[derive(Debug, Clone)]
pub enum StreamEvent {
    TextDelta(String),
    ToolCallDelta(ToolCallDelta),
    Finish { reason: String },
}

/// A tool-call fragment, by its texts.
pub struct DeltaV {
    pub index: u32,
    pub id: Option<Seq<char>>,
    pub name: Option<Seq<char>>,
    pub args_delta: Option<Seq<char>>,
}

/// A stream event, by its texts.
pub enum StreamEventV {
    TextDelta(Seq<char>),
    ToolCallDelta(DeltaV),
    Finish(Seq<char>),
}

impl View for ToolCallDelta {
    type V = DeltaV;

    open spec fn view(&self) -> DeltaV {
        DeltaV { index: self.index, id: opt_text(self.id), name: opt_text(self.name), args_delta: opt_text(self.args_delta) }
    }
}

impl View for StreamEvent {
    type V = StreamEventV;

    open spec fn view(&self) -> StreamEventV {
        match self {
            StreamEvent::TextDelta(t) => StreamEventV::TextDelta(t@),
            StreamEvent::ToolCallDelta(d) => StreamEventV::ToolCallDelta(d@),
            StreamEvent::Finish { reason } => StreamEventV::Finish(reason@),
        }
    }
}

/// Views of a list of stream events.
pub open spec fn events_view(es: Seq<StreamEvent>) -> Seq<StreamEventV> {
    es.map_values(|e: StreamEvent| e@)
}

/// The fragment that one entry of `delta.tool_calls` describes; a missing or
/// non-integer `index` counts as 0, and a larger one is cut to 32 bits.
pub open spec fn tool_delta(tc: JsonV) -> DeltaV {
    let function = member(tc, "function"@);
    DeltaV {
        index: match u64_of(member(tc, "index"@)) {
            Some(i) => i as u32,
            None => 0,
        },
        id: str_of(member(tc, "id"@)),
        name: str_of(member_of(function, "name"@)),
        args_delta: str_of(member_of(function, "arguments"@)),
    }
}

/// The event of one entry of `delta.tool_calls`.
pub open spec fn tool_delta_event(tc: JsonV) -> StreamEventV {
    StreamEventV::ToolCallDelta(tool_delta(tc))
}

/// The events of one entry of `choices`: its text delta (when non-empty),
/// its tool-call fragments, and its finish reason.
pub open spec fn choice_events(choice: JsonV) -> Seq<StreamEventV> {
    let delta = member(choice, "delta"@);
    let text = match str_of(member_of(delta, "content"@)) {
        Some(c) => if c.len() > 0 { seq![StreamEventV::TextDelta(c)] } else { Seq::empty() },
        None => Seq::empty(),
    };
    let calls = match array_of(member_of(delta, "tool_calls"@)) {
        Some(tcs) => tcs.map_values(|tc: JsonV| tool_delta_event(tc)),
        None => Seq::empty(),
    };
    let finish = match str_of(member(choice, "finish_reason"@)) {
        Some(r) => seq![StreamEventV::Finish(r)],
        None => Seq::empty(),
    };
    text + calls + finish
}

/// The events of a list of choices, in order.
pub open spec fn choices_events(choices: Seq<JsonV>) -> Seq<StreamEventV>
    decreases choices.len(),
{
    if choices.len() == 0 {
        Seq::empty()
    } else {
        choices_events(choices.drop_last()) + choice_events(choices.last())
    }
}

/// The events of one completion chunk.
pub open spec fn chunk_events(chunk: JsonV) -> Seq<StreamEventV> {
    match array_of(member(chunk, "choices"@)) {
        Some(choices) => choices_events(choices),
        None => Seq::empty(),
    }
}

fn opt_clone(s: Option<&String>) -> (r: Option<String>)
    ensures
        r == match s { Some(x) => Some(*x), None => None::<String> },
{
    match s {
        Some(x) => Some(x.clone()),
        None => None,
    }
}

fn json_opt_str(v: Option<&Json>) -> (r: Option<&String>)
    ensures
        opt_text(match r { Some(x) => Some(*x), None => None::<String> })
            == str_of(match v { Some(x) => Some(x.model()), None => None::<JsonV> }),
{
    match v {
        Some(x) => x.as_str(),
        None => None,
    }
}

fn json_opt_get<'a>(v: Option<&'a Json>, key: &str) -> (r: Option<&'a Json>)
    ensures
        (match r { Some(x) => Some(x.model()), None => None::<JsonV> })
            == member_of(match v { Some(x) => Some(x.model()), None => None::<JsonV> }, key@),
{
    match v {
        Some(x) => x.get(key),
        None => None,
    }
}

fn tool_delta_of(tc: &Json) -> (r: ToolCallDelta)
    ensures
        r@ == tool_delta(tc.model()),
{
    let index = match tc.get("index") {
        Some(i) => match i.as_u64() {
            Some(n) => n as u32,
            None => 0,
        },
        None => 0,
    };
    let id = opt_clone(json_opt_str(tc.get("id")));
    let function = tc.get("function");
    let name = opt_clone(json_opt_str(json_opt_get(function, "name")));
    let args_delta = opt_clone(json_opt_str(json_opt_get(function, "arguments")));
    ToolCallDelta { index, id, name, args_delta }
}

fn choice_events_of(choice: &Json, out: &mut Vec<StreamEvent>)
    ensures
        events_view(final(out)@) == events_view(old(out)@) + choice_events(choice.model()),
{
    let ghost start = events_view(out@);
    let delta = choice.get("delta");
    let ghost dv = match delta { Some(x) => Some(x.model()), None => None::<JsonV> };
    assert(dv == member(choice.model(), "delta"@));
    let mut text_part: Ghost<Seq<StreamEventV>> = Ghost(Seq::empty());
    match json_opt_str(json_opt_get(delta, "content")) {
        Some(c) => {
            if !c.as_str().is_empty() {
                out.push(StreamEvent::TextDelta(c.clone()));
                proof { text_part@ = seq![StreamEventV::TextDelta(c@)]; }
            }
        },
        None => {},
    }
    assert(events_view(out@) =~= start + text_part@);
    let ghost mid = events_view(out@);
    let mut calls_part: Ghost<Seq<StreamEventV>> = Ghost(Seq::empty());
    match json_opt_get(delta, "tool_calls") {
        Some(tcs_json) => {
            match tcs_json.as_array() {
                Some(tcs) => {
                    proof { lemma_models_index(tcs@); }
                    let mut k: usize = 0;
                    while k < tcs.len()
                        invariant
                            k <= tcs@.len(),
                            models(tcs@).len() == tcs@.len(),
                            forall|i: int| 0 <= i < tcs@.len() ==> #[trigger] models(tcs@)[i] == tcs@[i].model(),
                            events_view(out@) == mid + models(tcs@).take(k as int).map_values(|tc: JsonV| tool_delta_event(tc)),
                        decreases tcs.len() - k,
                    {
                        let d = tool_delta_of(&tcs[k]);
                        let ghost before = out@;
                        out.push(StreamEvent::ToolCallDelta(d));
                        proof {
                            assert(events_view(out@) =~= events_view(before).push(StreamEventV::ToolCallDelta(tool_delta(models(tcs@)[k as int]))));
                            assert(models(tcs@).take(k + 1).map_values(|tc: JsonV| tool_delta_event(tc)) =~= models(tcs@).take(k as int).map_values(|tc: JsonV| tool_delta_event(tc)).push(tool_delta_event(models(tcs@)[k as int])));
                            assert(events_view(out@) =~= mid + models(tcs@).take(k + 1).map_values(|tc: JsonV| tool_delta_event(tc)));
                        }
                        k += 1;
                    }
                    proof {
                        assert(models(tcs@).take(tcs@.len() as int) =~= models(tcs@));
                        calls_part@ = models(tcs@).map_values(|tc: JsonV| tool_delta_event(tc));
                    }
                },
                None => {},
            }
        },
        None => {},
    }
    assert(events_view(out@) =~= mid + calls_part@);
    let ghost mid2 = events_view(out@);
    let mut finish_part: Ghost<Seq<StreamEventV>> = Ghost(Seq::empty());
    match json_opt_str(choice.get("finish_reason")) {
        Some(r) => {
            out.push(StreamEvent::Finish { reason: r.clone() });
            proof { finish_part@ = seq![StreamEventV::Finish(r@)]; }
        },
        None => {},
    }
    assert(events_view(out@) =~= mid2 + finish_part@);
    assert(choice_events(choice.model()) =~= text_part@ + calls_part@ + finish_part@);
    assert(events_view(out@) =~= start + choice_events(choice.model()));
}

/// The text, tool-call and finish events of one completion chunk, in the
/// order of its `choices`.
pub fn extract_events(chunk: &Json) -> (r: Vec<StreamEvent>)
    ensures
        events_view(r@) == chunk_events(chunk.model()),
{
    let mut out: Vec<StreamEvent> = Vec::new();
    match chunk.get("choices") {
        Some(cj) => match cj.as_array() {
            Some(choices) => {
                proof { lemma_models_index(choices@); }
                let mut k: usize = 0;
                while k < choices.len()
                    invariant
                        k <= choices@.len(),
                        models(choices@).len() == choices@.len(),
                        forall|i: int| 0 <= i < choices@.len() ==> #[trigger] models(choices@)[i] == choices@[i].model(),
                        events_view(out@) == choices_events(models(choices@).take(k as int)),
                    decreases choices.len() - k,
                {
                    choice_events_of(&choices[k], &mut out);
                    proof {
                        assert(models(choices@).take(k + 1).drop_last() =~= models(choices@).take(k as int));
                    }
                    k += 1;
                }
                proof {
                    assert(models(choices@).take(choices@.len() as int) =~= models(choices@));
                }
            },
            None => {
                assert(events_view(out@) =~= Seq::<StreamEventV>::empty());
            },
        },
        None => {
            assert(events_view(out@) =~= Seq::<StreamEventV>::empty());
        },
    }
    out
}

/// The texts of the text-delta events among `es`, in order.
pub open spec fn text_deltas(es: Seq<StreamEventV>) -> Seq<Seq<char>>
    decreases es.len(),
{
    if es.len() == 0 {
        Seq::empty()
    } else {
        let rest = text_deltas(es.drop_last());
        match es.last() {
            StreamEventV::TextDelta(t) => rest.push(t),
            _ => rest,
        }
    }
}

/// The `delta.content` string of one entry of `choices`, where it has one.
pub open spec fn delta_content(choice: JsonV) -> Option<Seq<char>> {
    str_of(member_of(member(choice, "delta"@), "content"@))
}

/// The `delta.content` strings of `choices` that are not empty, in order.
pub open spec fn nonempty_contents(choices: Seq<JsonV>) -> Seq<Seq<char>>
    decreases choices.len(),
{
    if choices.len() == 0 {
        Seq::empty()
    } else {
        let rest = nonempty_contents(choices.drop_last());
        match delta_content(choices.last()) {
            Some(c) => if c.len() == 0 { rest } else { rest.push(c) },
            None => rest,
        }
    }
}

proof fn lemma_text_deltas_append(a: Seq<StreamEventV>, b: Seq<StreamEventV>)
    ensures
        text_deltas(a + b) == text_deltas(a) + text_deltas(b),
    decreases b.len(),
{
    if b.len() == 0 {
        assert(a + b =~= a);
        assert(text_deltas(a) + text_deltas(b) =~= text_deltas(a));
    } else {
        lemma_text_deltas_append(a, b.drop_last());
        assert((a + b).drop_last() =~= a + b.drop_last());
        assert((a + b).last() == b.last());
        match b.last() {
            StreamEventV::TextDelta(t) => {
                assert(text_deltas(a) + text_deltas(b.drop_last()).push(t)
                    =~= (text_deltas(a) + text_deltas(b.drop_last())).push(t));
            },
            _ => {},
        }
    }
}

proof fn lemma_text_deltas_none(es: Seq<StreamEventV>)
    requires
        forall|i: int| 0 <= i < es.len() ==> !(#[trigger] es[i] is TextDelta),
    ensures
        text_deltas(es) == Seq::<Seq<char>>::empty(),
    decreases es.len(),
{
    if es.len() > 0 {
        assert(!(es[es.len() - 1] is TextDelta));
        lemma_text_deltas_none(es.drop_last());
    }
}

/// The text deltas of one choice: its `delta.content`, where that is a
/// string that is not empty, and nothing else.
proof fn lemma_choice_text_deltas(choice: JsonV)
    ensures
        text_deltas(choice_events(choice)) == match delta_content(choice) {
            Some(c) => if c.len() == 0 { Seq::<Seq<char>>::empty() } else { seq![c] },
            None => Seq::<Seq<char>>::empty(),
        },
{
    let delta = member(choice, "delta"@);
    let text = match str_of(member_of(delta, "content"@)) {
        Some(c) => if c.len() > 0 { seq![StreamEventV::TextDelta(c)] } else { Seq::empty() },
        None => Seq::empty(),
    };
    let calls = match array_of(member_of(delta, "tool_calls"@)) {
        Some(tcs) => tcs.map_values(|tc: JsonV| tool_delta_event(tc)),
        None => Seq::empty(),
    };
    let finish = match str_of(member(choice, "finish_reason"@)) {
        Some(r) => seq![StreamEventV::Finish(r)],
        None => Seq::<StreamEventV>::empty(),
    };
    assert(choice_events(choice) == text + calls + finish);
    lemma_text_deltas_append(text + calls, finish);
    lemma_text_deltas_append(text, calls);
    lemma_text_deltas_none(calls);
    lemma_text_deltas_none(finish);
    match delta_content(choice) {
        Some(c) => {
            if c.len() > 0 {
                assert(text == seq![StreamEventV::TextDelta(c)]);
                assert(text.len() == 1);
                assert(text.drop_last() =~= Seq::<StreamEventV>::empty());
                assert(text_deltas(text.drop_last()) == Seq::<Seq<char>>::empty());
                assert(text.last() == StreamEventV::TextDelta(c));
                assert(text_deltas(text) == Seq::<Seq<char>>::empty().push(c));
                assert(text_deltas(text) =~= seq![c]);
            } else {
                assert(text =~= Seq::<StreamEventV>::empty());
            }
        },
        None => {
            assert(text =~= Seq::<StreamEventV>::empty());
        },
    }
    assert(text_deltas(text) + Seq::<Seq<char>>::empty() + Seq::<Seq<char>>::empty() =~= text_deltas(text));
}

proof fn lemma_choices_text_deltas(choices: Seq<JsonV>)
    ensures
        text_deltas(choices_events(choices)) == nonempty_contents(choices),
    decreases choices.len(),
{
    if choices.len() > 0 {
        lemma_choices_text_deltas(choices.drop_last());
        lemma_text_deltas_append(choices_events(choices.drop_last()), choice_events(choices.last()));
        lemma_choice_text_deltas(choices.last());
        let rest = nonempty_contents(choices.drop_last());
        assert(rest + Seq::<Seq<char>>::empty() =~= rest);
        match delta_content(choices.last()) {
            Some(c) => { assert(rest + seq![c] =~= rest.push(c)); },
            None => {},
        }
    }
}

/// The text deltas of a completion chunk are exactly the `delta.content`
/// strings of its choices that are not empty, in the order of the choices:
/// no content is dropped for being blank, and none is altered.
pub proof fn lemma_chunk_text_deltas(chunk: JsonV)
    ensures
        text_deltas(chunk_events(chunk)) == match array_of(member(chunk, "choices"@)) {
            Some(choices) => nonempty_contents(choices),
            None => Seq::<Seq<char>>::empty(),
        },
{
    match array_of(member(chunk, "choices"@)) {
        Some(choices) => lemma_choices_text_deltas(choices),
        None => {},
    }
}

/// A choice whose `delta.content` is a non-empty string, blank or not, opens
/// its events with a text delta of exactly that string.
pub proof fn lemma_content_first_event(choice: JsonV)
    ensures
        match delta_content(choice) {
            Some(c) => c.len() > 0 ==> choice_events(choice).len() > 0
                && choice_events(choice)[0] == StreamEventV::TextDelta(c),
            None => true,
        },
{
}

/// A decoded server-sent event: a completion chunk, or the end marker.
#[derive(Debug)]
pub enum ParsedEvent {
    Chunk(Json),
    Done,
}

/// A decoded event, by its model.
pub enum ParsedEventV {
    Chunk(JsonV),
    Done,
}

impl View for ParsedEvent {
    type V = ParsedEventV;

    open spec fn view(&self) -> ParsedEventV {
        match self {
            ParsedEvent::Chunk(j) => ParsedEventV::Chunk(j.model()),
            ParsedEvent::Done => ParsedEventV::Done,
        }
    }
}

/// What one raw event decodes to: nothing when it has no data, the end marker
/// for `[DONE]`, a chunk when its data is JSON, and an error otherwise.
pub open spec fn parse_event(raw: Seq<char>) -> Result<Option<ParsedEventV>, Seq<char>> {
    let d = event_data(raw);
    if d.len() == 0 {
        Ok(None)
    } else if d == "[DONE]"@ {
        Ok(Some(ParsedEventV::Done))
    } else {
        match json_parse(d) {
            Some(v) => Ok(Some(ParsedEventV::Chunk(v))),
            None => Err("parsing SSE data line: "@ + d),
        }
    }
}

/// Decodes one raw event (its lines up to and including the blank line).
pub fn parse_sse_event(raw: &str) -> (r: Result<Option<ParsedEvent>, String>)
    ensures
        match r {
            Ok(None) => parse_event(raw@) == Ok::<Option<ParsedEventV>, Seq<char>>(None),
            Ok(Some(e)) => parse_event(raw@) == Ok::<Option<ParsedEventV>, Seq<char>>(Some(e@)),
            Err(m) => parse_event(raw@) == Err::<Option<ParsedEventV>, Seq<char>>(m@),
        },
{
    let cs = chars_of(raw);
    let data = event_data_of(&cs, 0, cs.len());
    assert(cs@.subrange(0, cs@.len() as int) =~= raw@);
    if data.as_str().is_empty() {
        return Ok(None);
    }
    if same_text(data.as_str(), "[DONE]") {
        return Ok(Some(ParsedEvent::Done));
    }
    match parse_json(data.as_str()) {
        Some(v) => Ok(Some(ParsedEvent::Chunk(v))),
        None => {
            let mut msg = String::from_str("parsing SSE data line: ");
            msg.append(data.as_str());
            Err(msg)
        },
    }
}

/// Where an event stream stands after some input.
#[derive(Debug)]
pub enum StreamStatus {
    /// More input may follow.
    Open,
    /// The `[DONE]` marker arrived.
    Done,
    /// An event could not be decoded; the stream ends with this message.
    Failed(String),
}

/// A stream status, by its texts.
pub enum StatusV {
    Open,
    Done,
    Failed(Seq<char>),
}

impl View for StreamStatus {
    type V = StatusV;

    open spec fn view(&self) -> StatusV {
        match self {
            StreamStatus::Open => StatusV::Open,
            StreamStatus::Done => StatusV::Done,
            StreamStatus::Failed(m) => StatusV::Failed(m@),
        }
    }
}

/// Decodes every complete event at the front of `buf`, up to the end marker or
/// the first event that cannot be decoded: the events found, the bytes left
/// over, and the status reached.
pub open spec fn drain(buf: Seq<u8>) -> (Seq<StreamEventV>, Seq<u8>, StatusV)
    decreases buf.len(),
{
    match first_boundary(buf) {
        None => (Seq::empty(), buf, StatusV::Open),
        Some(e) => {
            let raw = buf.take(e);
            let rest = buf.skip(e);
            if !valid_utf8(raw) {
                (Seq::empty(), rest, StatusV::Failed("non-utf8 SSE event"@))
            } else {
                match parse_event(decode_utf8(raw)) {
                    Err(m) => (Seq::empty(), rest, StatusV::Failed(m)),
                    Ok(None) => {
                        proof { lemma_boundary_bounds(buf, 0); }
                        drain(rest)
                    },
                    Ok(Some(ParsedEventV::Done)) => (Seq::empty(), rest, StatusV::Done),
                    Ok(Some(ParsedEventV::Chunk(v))) => {
                        proof { lemma_boundary_bounds(buf, 0); }
                        let r = drain(rest);
                        (chunk_events(v) + r.0, r.1, r.2)
                    },
                }
            }
        },
    }
}

/// However the byte stream is cut into chunks, the decoder yields the same
/// events: while the stream is still open after `buf`, decoding `buf` and then
/// the leftover bytes followed by `more` gives what decoding `buf + more` at
/// once gives.
pub proof fn lemma_drain_chunking(buf: Seq<u8>, more: Seq<u8>)
    requires
        drain(buf).2 == StatusV::Open,
    ensures
        drain(buf + more) == (drain(buf).0 + drain(drain(buf).1 + more).0, drain(drain(buf).1 + more).1, drain(drain(buf).1 + more).2),
    decreases buf.len(),
{
    match first_boundary(buf) {
        None => {
            assert(Seq::<StreamEventV>::empty() + drain(buf + more).0 =~= drain(buf + more).0);
        },
        Some(e) => {
            lemma_boundary_bounds(buf, 0);
            lemma_boundary_extend(buf, more, 0);
            let whole = buf + more;
            assert(whole.take(e) =~= buf.take(e));
            assert(whole.skip(e) =~= buf.skip(e) + more);
            let rest = buf.skip(e);
            match parse_event(decode_utf8(buf.take(e))) {
                Ok(None) => {
                    lemma_drain_chunking(rest, more);
                },
                Ok(Some(ParsedEventV::Chunk(v))) => {
                    lemma_drain_chunking(rest, more);
                    let r2 = drain(drain(rest).1 + more);
                    assert(chunk_events(v) + (drain(rest).0 + r2.0) =~= (chunk_events(v) + drain(rest).0) + r2.0);
                },
                _ => {},
            }
        },
    }
}

/// `std::str::from_utf8`, with the error dropped. Claimed: it succeeds exactly
/// on valid UTF-8, and the text then has exactly the given bytes.
#[verifier::external_body]
fn utf8_str(bytes: &[u8]) -> (r: Option<&str>)
    ensures
        r is Some <==> valid_utf8(bytes@),
        r matches Some(s) ==> s.spec_bytes() == bytes@,
{
    std::str::from_utf8(bytes).ok()
}

/// Incremental decoder of an OpenRouter event stream: bytes in, stream events out.
pub struct SseDecoder {
    buffer: Vec<u8>,
}

impl View for SseDecoder {
    type V = Seq<u8>;

    /// The bytes received that do not yet form a complete event.
    closed spec fn view(&self) -> Seq<u8> {
        self.buffer@
    }
}

impl SseDecoder {
    /// A decoder that has received nothing.
    pub fn new() -> (d: SseDecoder)
        ensures
            d@ == Seq::<u8>::empty(),
    {
        SseDecoder { buffer: Vec::new() }
    }

    /// Takes the next chunk of bytes and returns the events that are now
    /// complete, with the status of the stream.
    pub fn feed(&mut self, chunk: &[u8]) -> (r: (Vec<StreamEvent>, StreamStatus))
        ensures
            events_view(r.0@) == drain(old(self)@ + chunk@).0,
            final(self)@ == drain(old(self)@ + chunk@).1,
            r.1@ == drain(old(self)@ + chunk@).2,
    {
        let mut i: usize = 0;
        while i < chunk.len()
            invariant
                i <= chunk@.len(),
                self.buffer@ == old(self)@ + chunk@.take(i as int),
            decreases chunk.len() - i,
        {
            self.buffer.push(chunk[i]);
            i += 1;
            assert(self.buffer@ =~= old(self)@ + chunk@.take(i as int));
        }
        assert(chunk@.take(chunk@.len() as int) =~= chunk@);
        let ghost whole = self.buffer@;
        let mut out: Vec<StreamEvent> = Vec::new();
        loop
            invariant
                whole == old(self)@ + chunk@,
                drain(whole) == (events_view(out@) + drain(self.buffer@).0, drain(self.buffer@).1, drain(self.buffer@).2),
            decreases self.buffer@.len(),
        {
            let ghost cur = self.buffer@;
            match find_event_boundary(self.buffer.as_slice()) {
                None => {
                    assert(events_view(out@) + Seq::<StreamEventV>::empty() =~= events_view(out@));
                    return (out, StreamStatus::Open);
                },
                Some(end) => {
                    proof { lemma_boundary_bounds(cur, 0); }
                    let mut raw = self.buffer.split_off(end);
                    std::mem::swap(&mut raw, &mut self.buffer);
                    assert(raw@ == cur.take(end as int));
                    assert(self.buffer@ == cur.skip(end as int));
                    match utf8_str(raw.as_slice()) {
                        None => {
                            assert(events_view(out@) + Seq::<StreamEventV>::empty() =~= events_view(out@));
                            return (out, StreamStatus::Failed(String::from_str("non-utf8 SSE event")));
                        },
                        Some(text) => {
                            assert(text.spec_bytes() == vstd::utf8::encode_utf8(text@));
                            proof { vstd::utf8::encode_utf8_decode_utf8(text@); }
                            assert(decode_utf8(raw@) == text@);
                            match parse_sse_event(text) {
                                Err(m) => {
                                    assert(events_view(out@) + Seq::<StreamEventV>::empty() =~= events_view(out@));
                                    return (out, StreamStatus::Failed(m));
                                },
                                Ok(None) => {},
                                Ok(Some(ParsedEvent::Done)) => {
                                    assert(events_view(out@) + Seq::<StreamEventV>::empty() =~= events_view(out@));
                                    return (out, StreamStatus::Done);
                                },
                                Ok(Some(ParsedEvent::Chunk(v))) => {
                                    let mut evs = extract_events(&v);
                                    let ghost before = out@;
                                    out.append(&mut evs);
                                    assert(events_view(out@) =~= events_view(before) + chunk_events(v.model()));
                                },
                            }
                        },
                    }
                },
            }
        }
    }
}

} // verus!
