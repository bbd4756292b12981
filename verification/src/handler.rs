//! The chat endpoint's logic: request checks, the opening transcript, the
//! tool definitions handed to the model, and the agent loop, written as a
//! state machine that the HTTP layer drives.
use vstd::prelude::*;
use vstd::string::StringExecFns;
use vstd::string::StringSliceAdditionalSpecFns;
use crate::json::{Json, JsonV, empty_object_v, push_member, remove_member, has_member, member, member_of};
use crate::mcp::{McpTool, empty_object_schema, empty_object_schema_v};
use crate::openrouter::{Message, MessageV, messages_view};
use crate::text::{trim, utf8_len, chars_of, trim_chars, string_of, same_text};

verus! {

/// Most model turns in one chat request.
pub const MAX_TOOL_ITERATIONS: u32 = 6;
/// Token budget of one model reply.
pub const MAX_RESPONSE_TOKENS: u32 = 800;
/// Most transcript entries a chat request may carry.
pub const MAX_HISTORY_MESSAGES: usize = 20;
/// Most UTF-8 bytes of the (trimmed) last user message.
pub const MAX_USER_MESSAGE_BYTES: usize = 2000;

/// One entry of the transcript that the browser posts.
#[derive(Debug)]
pub struct TranscriptEntry {
    pub role: String,
    pub text: String,
}

/// A transcript entry, by its texts.
pub struct TranscriptV {
    pub role: Seq<char>,
    pub text: Seq<char>,
}

impl View for TranscriptEntry {
    type V = TranscriptV;

    open spec fn view(&self) -> TranscriptV {
        TranscriptV { role: self.role@, text: self.text@ }
    }
}

/// Views of a transcript.
pub open spec fn transcript_view(h: Seq<TranscriptEntry>) -> Seq<TranscriptV> {
    h.map_values(|e: TranscriptEntry| e@)
}

/// A refused chat request: the HTTP status and the message.
#[derive(Debug)]
pub struct ChatRejection {
    pub status: u16,
    pub message: String,
}

/// Why a transcript is refused, if it is: it must hold 1 to 20 entries, the
/// last from the user, whose text, trimmed, is non-empty and at most 2000 bytes.
pub open spec fn history_rejection(h: Seq<TranscriptV>) -> Option<Seq<char>> {
    if h.len() == 0 {
        Some("history is empty"@)
    } else if h.len() > MAX_HISTORY_MESSAGES {
        Some("history too long"@)
    } else if h.last().role != "user"@ {
        Some("last entry must be a user message"@)
    } else if trim(h.last().text).len() == 0 {
        Some("user message is empty"@)
    } else if utf8_len(trim(h.last().text)) > MAX_USER_MESSAGE_BYTES {
        Some("user message too long"@)
    } else {
        None
    }
}

/// The answer to a chat request when the service is not configured (HTTP 503).
pub fn not_configured() -> (r: ChatRejection)
    ensures
        r.status == 503,
        r.message@ == "Chat is not configured on this server."@,
{
    ChatRejection { status: 503, message: String::from_str("Chat is not configured on this server.") }
}

/// Checks a chat request, given the API key resolved for it: without a key
/// the service is unavailable (503); a bad transcript is a bad request (400).
/// On success, returns the key.
pub fn check_chat_request(api_key: Option<String>, history: &Vec<TranscriptEntry>) -> (r: Result<String, ChatRejection>)
    ensures
        api_key is None ==> (r matches Err(e) && e.status == 503 && e.message@ == "Chat is not configured on this server."@),
        api_key is Some ==> match history_rejection(transcript_view(history@)) {
            Some(m) => r matches Err(e) && e.status == 400 && e.message@ == m,
            None => r matches Ok(k) && k == api_key->0,
        },
{
    let key = match api_key {
        Some(k) => k,
        None => { return Err(not_configured()); },
    };
    let ghost h = transcript_view(history@);
    if history.len() == 0 {
        return Err(ChatRejection { status: 400, message: String::from_str("history is empty") });
    }
    if history.len() > MAX_HISTORY_MESSAGES {
        return Err(ChatRejection { status: 400, message: String::from_str("history too long") });
    }
    let last = &history[history.len() - 1];
    assert(h.last() == last@);
    if !same_text(last.role.as_str(), "user") {
        return Err(ChatRejection { status: 400, message: String::from_str("last entry must be a user message") });
    }
    let cs = chars_of(last.text.as_str());
    let trimmed = trim_chars(&cs);
    if trimmed.len() == 0 {
        return Err(ChatRejection { status: 400, message: String::from_str("user message is empty") });
    }
    let t = string_of(&trimmed, 0, trimmed.len());
    assert(trimmed@.subrange(0, trimmed@.len() as int) =~= trimmed@);
    let ts = t.as_str();
    assert(ts.spec_bytes() == vstd::utf8::encode_utf8(ts@));
    if ts.as_bytes().len() > MAX_USER_MESSAGE_BYTES {
        return Err(ChatRejection { status: 400, message: String::from_str("user message too long") });
    }
    Ok(key)
}

/// The messages that a transcript contributes: user and assistant entries, in
/// order; entries with any other role are dropped.
pub open spec fn history_messages(h: Seq<TranscriptV>) -> Seq<MessageV>
    decreases h.len(),
{
    if h.len() == 0 {
        Seq::empty()
    } else {
        let rest = history_messages(h.drop_last());
        let e = h.last();
        if e.role == "user"@ {
            rest.push(MessageV { role: "user"@, content: Some(e.text), tool_calls: Seq::empty(), tool_call_id: None })
        } else if e.role == "assistant"@ {
            rest.push(MessageV { role: "assistant"@, content: Some(e.text), tool_calls: Seq::empty(), tool_call_id: None })
        } else {
            rest
        }
    }
}

/// The opening transcript of the agent: the system prompt, then the user and
/// assistant entries of the posted history.
pub fn initial_messages(system_prompt: String, history: &Vec<TranscriptEntry>) -> (r: Vec<Message>)
    ensures
        messages_view(r@) == seq![MessageV { role: "system"@, content: Some(system_prompt@), tool_calls: Seq::empty(), tool_call_id: None }]
            + history_messages(transcript_view(history@)),
{
    let mut out: Vec<Message> = Vec::new();
    let ghost sys = MessageV { role: "system"@, content: Some(system_prompt@), tool_calls: Seq::empty(), tool_call_id: None };
    out.push(Message::system(system_prompt));
    let mut k: usize = 0;
    while k < history.len()
        invariant
            k <= history@.len(),
            messages_view(out@) == seq![sys] + history_messages(transcript_view(history@).take(k as int)),
        decreases history.len() - k,
    {
        let ghost before = messages_view(out@);
        proof {
            assert(transcript_view(history@).take(k + 1).drop_last() =~= transcript_view(history@).take(k as int));
            assert(transcript_view(history@).take(k + 1).last() == history@[k as int]@);
        }
        let e = &history[k];
        if same_text(e.role.as_str(), "user") {
            out.push(Message::user(e.text.clone()));
            assert(messages_view(out@) =~= before.push(out@.last()@));
        } else if same_text(e.role.as_str(), "assistant") {
            out.push(Message::assistant_text(e.text.clone()));
            assert(messages_view(out@) =~= before.push(out@.last()@));
        }
        k += 1;
    }
    assert(transcript_view(history@).take(history@.len() as int) =~= transcript_view(history@));
    out
}

/// When a transcript is accepted, the conversation handed to the model opens
/// with the system prompt and closes with the user's last entry, its text
/// unchanged (the trimming only serves the check).
pub proof fn lemma_accepted_transcript_ends_with_user(system_prompt: Seq<char>, h: Seq<TranscriptV>)
    requires
        history_rejection(h) is None,
    ensures
        ({
            let ms = seq![MessageV { role: "system"@, content: Some(system_prompt), tool_calls: Seq::empty(), tool_call_id: None }]
                + history_messages(h);
            &&& ms[0] == MessageV { role: "system"@, content: Some(system_prompt), tool_calls: Seq::empty(), tool_call_id: None }
            &&& ms.last() == MessageV { role: "user"@, content: Some(h.last().text), tool_calls: Seq::empty(), tool_call_id: None }
        }),
{
}

/// The `parameters` schema handed to the model for a tool: the tool's input
/// schema without `$schema` and `title`, with `"type": "object"` and empty
/// `properties` added where missing; a schema that is not an object is
/// replaced by the empty object schema.
pub open spec fn openai_parameters(schema: JsonV) -> JsonV {
    match schema {
        JsonV::Object(m) => {
            let m1 = m.remove("$schema"@).remove("title"@);
            let m2 = if m1.contains_key("type"@) { m1 } else { m1.insert("type"@, JsonV::Str("object"@)) };
            let m3 = if m2.contains_key("properties"@) { m2 } else { m2.insert("properties"@, empty_object_v()) };
            JsonV::Object(m3)
        },
        _ => empty_object_schema_v(),
    }
}

/// A tool definition in OpenAI function-calling form.
pub open spec fn openai_tool_v(name: Seq<char>, description: Seq<char>, schema: JsonV) -> JsonV {
    JsonV::Object(Map::empty()
        .insert("type"@, JsonV::Str("function"@))
        .insert("function"@, JsonV::Object(Map::empty()
            .insert("name"@, JsonV::Str(name))
            .insert("description"@, JsonV::Str(description))
            .insert("parameters"@, openai_parameters(schema)))))
}

/// The definition of an MCP tool in OpenAI function-calling form.
pub fn mcp_tool_to_openai(tool: &McpTool) -> (r: Json)
    ensures
        r.model() == openai_tool_v(tool.name@, tool.description@, tool.input_schema.model()),
{
    let params = match tool.input_schema.duplicate() {
        Json::Object(mut members) => {
            remove_member(&mut members, "$schema");
            remove_member(&mut members, "title");
            if !has_member(&members, "type") {
                push_member(&mut members, String::from_str("type"), Json::Str(String::from_str("object")));
            }
            if !has_member(&members, "properties") {
                push_member(&mut members, String::from_str("properties"), crate::json::empty_object());
            }
            Json::Object(members)
        },
        _ => empty_object_schema(),
    };
    let mut function: Vec<(String, Json)> = Vec::new();
    push_member(&mut function, String::from_str("name"), Json::Str(tool.name.clone()));
    push_member(&mut function, String::from_str("description"), Json::Str(tool.description.clone()));
    push_member(&mut function, String::from_str("parameters"), params);
    let mut out: Vec<(String, Json)> = Vec::new();
    push_member(&mut out, String::from_str("type"), Json::Str(String::from_str("function")));
    push_member(&mut out, String::from_str("function"), Json::Object(function));
    Json::Object(out)
}

/// The tool definitions handed to the model, one per MCP tool, in order.
pub fn openai_tools(tools: &[McpTool]) -> (r: Vec<Json>)
    ensures
        r@.len() == tools@.len(),
        forall|i: int| 0 <= i < tools@.len() ==> (#[trigger] r@[i]).model()
            == openai_tool_v(tools@[i].name@, tools@[i].description@, tools@[i].input_schema.model()),
{
    let mut out: Vec<Json> = Vec::new();
    let mut k: usize = 0;
    while k < tools.len()
        invariant
            k <= tools@.len(),
            out@.len() == k,
            forall|i: int| 0 <= i < k ==> (#[trigger] out@[i]).model()
                == openai_tool_v(tools@[i].name@, tools@[i].description@, tools@[i].input_schema.model()),
        decreases tools.len() - k,
    {
        out.push(mcp_tool_to_openai(&tools[k]));
        k += 1;
    }
    out
}

/// The tool parameters handed to the model always describe an object with
/// `type` and `properties`, and never carry `$schema` or `title`.
pub proof fn lemma_openai_parameters_shape(schema: JsonV)
    ensures
        openai_parameters(schema) is Object,
        openai_parameters(schema)->Object_0.contains_key("type"@),
        openai_parameters(schema)->Object_0.contains_key("properties"@),
        !openai_parameters(schema)->Object_0.contains_key("$schema"@),
        !openai_parameters(schema)->Object_0.contains_key("title"@),
{
    reveal_strlit("type");
    reveal_strlit("properties");
    reveal_strlit("$schema");
    reveal_strlit("title");
    assert("type"@.len() == 4 && "properties"@.len() == 10 && "$schema"@.len() == 7 && "title"@.len() == 5);
}

/// A tool definition hands the model its input schema as `function.parameters`,
/// and of an object schema every member but `$schema` and `title` is kept
/// unchanged (`required` among them); `type` and `properties` are added only
/// where the schema lacks them, and nothing else is added.
pub proof fn lemma_openai_parameters_keep_members(name: Seq<char>, description: Seq<char>, schema: JsonV, key: Seq<char>)
    ensures
        member_of(member(openai_tool_v(name, description, schema), "function"@), "parameters"@)
            == Some(openai_parameters(schema)),
        schema is Object && key != "$schema"@ && key != "title"@ && member(schema, key) is Some
            ==> member(openai_parameters(schema), key) == member(schema, key),
        schema is Object && key != "$schema"@ && key != "title"@ && key != "type"@ && key != "properties"@
            ==> member(openai_parameters(schema), key) == member(schema, key),
        schema is Object && member(schema, "type"@) is None
            ==> member(openai_parameters(schema), "type"@) == Some(JsonV::Str("object"@)),
        schema is Object && member(schema, "properties"@) is None
            ==> member(openai_parameters(schema), "properties"@) == Some(empty_object_v()),
{
    reveal_strlit("type");
    reveal_strlit("properties");
    reveal_strlit("$schema");
    reveal_strlit("title");
    reveal_strlit("function");
    reveal_strlit("parameters");
    reveal_strlit("name");
    reveal_strlit("description");
    assert("type"@.len() == 4 && "properties"@.len() == 10 && "$schema"@.len() == 7 && "title"@.len() == 5);
    assert("function"@.len() == 8 && "parameters"@.len() == 10 && "name"@.len() == 4 && "description"@.len() == 11);
    assert("parameters"@ != "properties"@) by {
        assert("parameters"@[1] != "properties"@[1]);
    }
}

/// The `/status` answer: whether chat is enabled, and the widget's suggestions.
#[derive(Debug)]
pub struct StatusBody {
    pub enabled: bool,
    pub starters: Vec<String>,
    pub followups: Vec<String>,
}

impl StatusBody {
    /// The answer where no service is configured: disabled, no suggestions.
    pub fn disabled() -> (r: StatusBody)
        ensures
            !r.enabled,
            r.starters@.len() == 0,
            r.followups@.len() == 0,
    {
        StatusBody { enabled: false, starters: Vec::new(), followups: Vec::new() }
    }

    /// The answer of a configured service: enabled exactly when a key
    /// resolves, with the resolved suggestions.
    pub fn configured(api_key: &Option<String>, suggestions: (Vec<String>, Vec<String>)) -> (r: StatusBody)
        ensures
            r.enabled == api_key is Some,
            r.starters == suggestions.0,
            r.followups == suggestions.1,
    {
        let (starters, followups) = suggestions;
        StatusBody { enabled: api_key.is_some(), starters, followups }
    }
}

} // verus!
