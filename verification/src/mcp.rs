//! The MCP (Streamable HTTP) client's protocol logic: the JSON-RPC messages it
//! sends, how it decodes replies, how it reads tool results, and when it
//! reconnects.
use vstd::prelude::*;
use vstd::string::StringExecFns;
use vstd::string::StringSliceAdditionalSpecFns;
use crate::json::{
    Json, JsonV, json_parse, json_serialize, member, member_of, str_of, bool_of, array_of,
    models, empty_object_v, parse_json, json_text, push_member, lemma_models_index,
    number_u64,
};
use crate::sse::{event_data, event_data_of};
use crate::text::{is_prefix, occurs_in, utf8_len, lowercase, chars_of, same_text, contains_str, to_lowercase, push_char};
use vstd::utf8::{encode_utf8, decode_utf8, is_char_boundary};

verus! {

/// A tool that the MCP server offers.
#[derive(Debug)]
pub struct McpTool {
    pub name: String,
    pub description: String,
    pub input_schema: Json,
}

/// `{"type": "object", "properties": {}}`, the schema of a tool without parameters.
pub open spec fn empty_object_schema_v() -> JsonV {
    JsonV::Object(Map::empty().insert("type"@, JsonV::Str("object"@)).insert("properties"@, empty_object_v()))
}

/// The protocol revision this client speaks.
pub open spec fn protocol_version() -> Seq<char> {
    "2025-06-18"@
}

/// `serde_json::Number::from(u64)`. Claimed: `as_u64` of the number gives `n`
/// back (the number is stored as a non-negative integer).
#[verifier::external_body]
fn number_of_u64(n: u64) -> (r: serde_json::Number)
    ensures
        number_u64(r) == Some(n),
{
    serde_json::Number::from(n)
}

/// `{"type": "object", "properties": {}}`.
pub fn empty_object_schema() -> (r: Json)
    ensures
        r.model() == empty_object_schema_v(),
{
    let mut m: Vec<(String, Json)> = Vec::new();
    push_member(&mut m, String::from_str("type"), Json::Str(String::from_str("object")));
    push_member(&mut m, String::from_str("properties"), crate::json::empty_object());
    Json::Object(m)
}

/// A JSON-RPC request: `{"jsonrpc": "2.0", "id": id, "method": method, "params": params}`.
pub fn rpc_request(id: u64, method: &str, params: Json) -> (r: Json)
    ensures
        r.model() is Object,
        member(r.model(), "jsonrpc"@) == Some(JsonV::Str("2.0"@)),
        member(r.model(), "method"@) == Some(JsonV::Str(method@)),
        member(r.model(), "params"@) == Some(params.model()),
        crate::json::u64_of(member(r.model(), "id"@)) == Some(id),
        r.model()->Object_0.dom() == set!["jsonrpc"@, "id"@, "method"@, "params"@],
{
    let mut m: Vec<(String, Json)> = Vec::new();
    push_member(&mut m, String::from_str("jsonrpc"), Json::Str(String::from_str("2.0")));
    push_member(&mut m, String::from_str("id"), Json::Number(number_of_u64(id)));
    push_member(&mut m, String::from_str("method"), Json::Str(String::from_str(method)));
    push_member(&mut m, String::from_str("params"), params);
    let r = Json::Object(m);
    proof {
        reveal_strlit("jsonrpc");
        reveal_strlit("id");
        reveal_strlit("method");
        reveal_strlit("params");
        reveal_strlit("2.0");
        assert("jsonrpc"@.len() == 7);
        assert("id"@.len() == 2);
        assert("jsonrpc"@ != "id"@ && "jsonrpc"@ != "method"@ && "jsonrpc"@ != "params"@);
        assert("method"@ != "params"@ && "id"@ != "params"@ && "id"@ != "method"@) by {
            assert("method"@[0] != "params"@[0]);
        }
        assert(r.model()->Object_0.dom() =~= set!["jsonrpc"@, "id"@, "method"@, "params"@]);
    }
    r
}

/// The `initialize` request of the handshake, id 1.
pub fn initialize_request(version: &str) -> (r: Json)
    ensures
        r.model() is Object,
        member(r.model(), "jsonrpc"@) == Some(JsonV::Str("2.0"@)),
        member(r.model(), "method"@) == Some(JsonV::Str("initialize"@)),
        crate::json::u64_of(member(r.model(), "id"@)) == Some(1u64),
        member(member_of(member(r.model(), "params"@), "clientInfo"@)->0, "version"@) == Some(JsonV::Str(version@)),
        member(member_of(member(r.model(), "params"@), "clientInfo"@)->0, "name"@) == Some(JsonV::Str("mcsoftsolution-chat"@)),
        member(member(r.model(), "params"@)->0, "protocolVersion"@) == Some(JsonV::Str(protocol_version())),
        member(member(r.model(), "params"@)->0, "capabilities"@) == Some(empty_object_v()),
        r.model()->Object_0.dom() == set!["jsonrpc"@, "id"@, "method"@, "params"@],
        member(r.model(), "params"@)->0->Object_0.dom() == set!["protocolVersion"@, "capabilities"@, "clientInfo"@],
        member_of(member(r.model(), "params"@), "clientInfo"@)->0->Object_0.dom() == set!["name"@, "version"@],
{
    let mut client: Vec<(String, Json)> = Vec::new();
    push_member(&mut client, String::from_str("name"), Json::Str(String::from_str("mcsoftsolution-chat")));
    push_member(&mut client, String::from_str("version"), Json::Str(String::from_str(version)));
    let mut params: Vec<(String, Json)> = Vec::new();
    push_member(&mut params, String::from_str("protocolVersion"), Json::Str(String::from_str("2025-06-18")));
    push_member(&mut params, String::from_str("capabilities"), crate::json::empty_object());
    push_member(&mut params, String::from_str("clientInfo"), Json::Object(client));
    let r = rpc_request(1, "initialize", Json::Object(params));
    proof {
        reveal_strlit("name");
        reveal_strlit("version");
        reveal_strlit("protocolVersion");
        reveal_strlit("capabilities");
        reveal_strlit("clientInfo");
        assert("name"@.len() == 4);
        assert("version"@.len() == 7);
        assert("protocolVersion"@.len() == 15);
        assert("capabilities"@.len() == 12);
        assert("clientInfo"@.len() == 10);
        let pm = member(r.model(), "params"@)->0->Object_0;
        assert(pm.dom() =~= set!["protocolVersion"@, "capabilities"@, "clientInfo"@]);
        let cm = member_of(member(r.model(), "params"@), "clientInfo"@)->0->Object_0;
        assert(cm.dom() =~= set!["name"@, "version"@]);
    }
    r
}

/// The `notifications/initialized` notification that confirms the session.
pub fn initialized_notification() -> (r: Json)
    ensures
        r.model() == JsonV::Object(Map::empty()
            .insert("jsonrpc"@, JsonV::Str("2.0"@))
            .insert("method"@, JsonV::Str("notifications/initialized"@))),
{
    let mut m: Vec<(String, Json)> = Vec::new();
    push_member(&mut m, String::from_str("jsonrpc"), Json::Str(String::from_str("2.0")));
    push_member(&mut m, String::from_str("method"), Json::Str(String::from_str("notifications/initialized")));
    Json::Object(m)
}

/// The params of `tools/call`: `{"name": name, "arguments": arguments}`.
pub fn tool_call_params(name: &str, arguments: Json) -> (r: Json)
    ensures
        r.model() == JsonV::Object(Map::empty()
            .insert("name"@, JsonV::Str(name@))
            .insert("arguments"@, arguments.model())),
{
    let mut m: Vec<(String, Json)> = Vec::new();
    push_member(&mut m, String::from_str("name"), Json::Str(String::from_str(name)));
    push_member(&mut m, String::from_str("arguments"), arguments);
    Json::Object(m)
}

/// What a JSON-RPC reply yields: its `error.message` (or "unknown error") as
/// an error where it has an `error` member, else its `result` (or `null`).
pub open spec fn rpc_outcome_v(method: Seq<char>, reply: JsonV) -> Result<JsonV, Seq<char>> {
    match member(reply, "error"@) {
        Some(err) => {
            let msg = match str_of(member(err, "message"@)) {
                Some(m) => m,
                None => "unknown error"@,
            };
            Err("mcp error from "@ + method + ": "@ + msg)
        },
        None => match member(reply, "result"@) {
            Some(v) => Ok(v),
            None => Ok(JsonV::Null),
        },
    }
}

/// Reads a JSON-RPC reply to `method`.
pub fn rpc_outcome(method: &str, reply: &Json) -> (r: Result<Json, String>)
    ensures
        match r {
            Ok(v) => rpc_outcome_v(method@, reply.model()) == Ok::<JsonV, Seq<char>>(v.model()),
            Err(m) => rpc_outcome_v(method@, reply.model()) == Err::<JsonV, Seq<char>>(m@),
        },
{
    match reply.get("error") {
        Some(err) => {
            let mut msg = String::from_str("mcp error from ");
            msg.append(method);
            msg.append(": ");
            match err.get("message") {
                Some(m) => match m.as_str() {
                    Some(t) => msg.append(t.as_str()),
                    None => msg.append("unknown error"),
                },
                None => msg.append("unknown error"),
            }
            Err(msg)
        },
        None => match reply.get("result") {
            Some(v) => Ok(v.duplicate()),
            None => Ok(Json::Null),
        },
    }
}

/// Whether an error message says that the server dropped the session, which
/// calls for one new handshake and one retry.
pub open spec fn session_lost_v(message: Seq<char>) -> bool {
    occurs_in("Session not found"@, message) || occurs_in("HTTP 401"@, message)
}

/// Whether an error message says that the server dropped the session.
pub fn session_lost(message: &str) -> (r: bool)
    ensures
        r == session_lost_v(message@),
{
    contains_str(message, "Session not found") || contains_str(message, "HTTP 401")
}

/// The `text` of one content block, where it is a string.
pub open spec fn block_text(block: JsonV) -> Option<Seq<char>> {
    str_of(member(block, "text"@))
}

/// The texts of the content blocks, joined by a blank line.
pub open spec fn blocks_text(blocks: Seq<JsonV>) -> Seq<char>
    decreases blocks.len(),
{
    if blocks.len() == 0 {
        Seq::empty()
    } else {
        let acc = blocks_text(blocks.drop_last());
        match block_text(blocks.last()) {
            Some(t) => if acc.len() == 0 { t } else { acc + "\n\n"@ + t },
            None => acc,
        }
    }
}

/// The text that a `tools/call` result reads as: the texts of its `content`
/// blocks, or, where there are none, the whole result printed as JSON; an
/// error `"tool error: ..."` where `isError` is true.
pub open spec fn tool_result_v(result: JsonV) -> Result<Seq<char>, Seq<char>> {
    let is_error = match bool_of(member(result, "isError"@)) {
        Some(b) => b,
        None => false,
    };
    let blocks = match array_of(member(result, "content"@)) {
        Some(items) => items,
        None => Seq::empty(),
    };
    let joined = blocks_text(blocks);
    let text = if joined.len() == 0 { json_serialize(result) } else { joined };
    if is_error { Err("tool error: "@ + text) } else { Ok(text) }
}

/// Reads the result of a `tools/call`.
pub fn tool_result_text(result: &Json) -> (r: Result<String, String>)
    ensures
        match r {
            Ok(t) => tool_result_v(result.model()) == Ok::<Seq<char>, Seq<char>>(t@),
            Err(m) => tool_result_v(result.model()) == Err::<Seq<char>, Seq<char>>(m@),
        },
{
    let is_error = match result.get("isError") {
        Some(v) => match v.as_bool() {
            Some(b) => b,
            None => false,
        },
        None => false,
    };
    let mut text = String::new();
    match result.get("content") {
        Some(c) => match c.as_array() {
            Some(blocks) => {
                proof { lemma_models_index(blocks@); }
                let mut k: usize = 0;
                while k < blocks.len()
                    invariant
                        k <= blocks@.len(),
                        models(blocks@).len() == blocks@.len(),
                        forall|i: int| 0 <= i < blocks@.len() ==> #[trigger] models(blocks@)[i] == blocks@[i].model(),
                        text@ == blocks_text(models(blocks@).take(k as int)),
                    decreases blocks.len() - k,
                {
                    proof {
                        assert(models(blocks@).take(k + 1).drop_last() =~= models(blocks@).take(k as int));
                        assert(models(blocks@).take(k + 1).last() == blocks@[k as int].model());
                    }
                    match blocks[k].get("text") {
                        Some(t) => match t.as_str() {
                            Some(s) => {
                                if !text.as_str().is_empty() {
                                    text.append("\n\n");
                                }
                                text.append(s.as_str());
                            },
                            None => {},
                        },
                        None => {},
                    }
                    k += 1;
                }
                proof { assert(models(blocks@).take(blocks@.len() as int) =~= models(blocks@)); }
            },
            None => {},
        },
        None => {},
    }
    if text.as_str().is_empty() {
        text = json_text(result);
    }
    if is_error {
        let mut msg = String::from_str("tool error: ");
        msg.append(text.as_str());
        Err(msg)
    } else {
        Ok(text)
    }
}

/// A `tools/call` result reads as an error exactly when its `isError` member
/// is the boolean `true`; the error then starts with `tool error: `. Where
/// `isError` is absent, false or not a boolean, the result reads as the
/// joined texts of its content blocks (when there are any).
pub proof fn lemma_tool_error_flag(result: JsonV)
    ensures
        tool_result_v(result) is Err <==> member(result, "isError"@) == Some(JsonV::Bool(true)),
        tool_result_v(result) matches Err(m) ==> is_prefix("tool error: "@, m),
        member(result, "isError"@) != Some(JsonV::Bool(true)) ==> match array_of(member(result, "content"@)) {
            Some(items) => blocks_text(items).len() > 0 ==> tool_result_v(result) == Ok::<Seq<char>, Seq<char>>(blocks_text(items)),
            None => true,
        },
{
    match tool_result_v(result) {
        Err(m) => {
            assert(m.take("tool error: "@.len() as int) =~= "tool error: "@);
        },
        Ok(_) => {},
    }
}

/// The `tools` member of a `tools/list` result.
pub fn tools_member(result: &Json) -> (r: Result<&Json, String>)
    ensures
        member(result.model(), "tools"@) is Some <==> r is Ok,
        r matches Ok(t) ==> member(result.model(), "tools"@) == Some(t.model()),
        r matches Err(m) ==> m@ == "tools/list response missing 'tools' field"@,
{
    match result.get("tools") {
        Some(t) => Ok(t),
        None => Err(String::from_str("tools/list response missing 'tools' field")),
    }
}

/// Whether a cached tool list fetched `elapsed_secs` whole seconds ago is
/// still fresh (it is kept for fifteen minutes).
pub fn tool_list_fresh(elapsed_secs: u64) -> (r: bool)
    ensures
        r == (elapsed_secs < 900),
{
    elapsed_secs < 900
}

/// Index of the first blank line (`"\n\n"`) in `s` at or after `i`.
pub open spec fn sep_from(s: Seq<char>, i: int) -> Option<int>
    decreases s.len() - i,
{
    if i < 0 || i + 1 >= s.len() {
        None
    } else if s[i] == '\n' && s[i + 1] == '\n' {
        Some(i)
    } else {
        sep_from(s, i + 1)
    }
}

pub proof fn lemma_sep_bounds(s: Seq<char>, i: int)
    ensures
        sep_from(s, i) matches Some(j) ==> 0 <= i <= j && j + 2 <= s.len(),
    decreases s.len() - i,
{
    if 0 <= i && i + 1 < s.len() && !(s[i] == '\n' && s[i + 1] == '\n') {
        lemma_sep_bounds(s, i + 1);
    }
}

/// The pieces of `s[pos..]` between blank lines, as `str::split("\n\n")` cuts them.
pub open spec fn events_from(s: Seq<char>, pos: int) -> Seq<Seq<char>>
    decreases s.len() - pos,
{
    if pos < 0 || pos > s.len() {
        Seq::empty()
    } else {
        match sep_from(s, pos) {
            None => seq![s.subrange(pos, s.len() as int)],
            Some(j) => {
                proof { lemma_sep_bounds(s, pos); }
                seq![s.subrange(pos, j)] + events_from(s, j + 2)
            },
        }
    }
}

/// The first event whose data is JSON (events with no data and `[DONE]` are skipped).
pub open spec fn first_payload(events: Seq<Seq<char>>) -> Option<JsonV>
    decreases events.len(),
{
    if events.len() == 0 {
        None
    } else {
        let d = event_data(events[0]);
        if d.len() > 0 && d != "[DONE]"@ && json_parse(d) is Some {
            json_parse(d)
        } else {
            first_payload(events.skip(1))
        }
    }
}

/// Whether a reply's content type announces an event stream.
pub open spec fn is_event_stream(content_type: Seq<char>) -> bool {
    is_prefix("text/event-stream"@, lowercase(content_type))
}

/// `s` cut to its first `max` UTF-8 bytes, with an ellipsis, where it is longer.
pub open spec fn truncated(s: Seq<char>, max: nat) -> Seq<char> {
    if utf8_len(s) <= max {
        s
    } else {
        decode_utf8(encode_utf8(s).take(max as int)).push('\u{2026}')
    }
}

/// What an MCP reply body decodes to: for an event stream, the first event
/// whose data is JSON; otherwise the body as JSON. An empty body is an error.
pub open spec fn decoded_body(content_type: Seq<char>, body: Seq<char>) -> Result<JsonV, Seq<char>> {
    if body.len() == 0 {
        Err("empty MCP response body"@)
    } else if is_event_stream(content_type) {
        match first_payload(events_from(body, 0)) {
            Some(v) => Ok(v),
            None => Err("MCP SSE response had no parseable JSON-RPC payload"@),
        }
    } else {
        match json_parse(body) {
            Some(v) => Ok(v),
            None => Err("parsing MCP JSON response: "@ + truncated(body, 256)),
        }
    }
}

/// The inputs on which decoding a body would cut a multi-byte character in
/// the error message: a non-JSON body longer than 256 bytes whose 256th byte
/// ends inside a character.
pub open spec fn decode_cuts_char(content_type: Seq<char>, body: Seq<char>) -> bool {
    &&& body.len() > 0
    &&& !is_event_stream(content_type)
    &&& json_parse(body) is None
    &&& utf8_len(body) > 256
    &&& !is_char_boundary(encode_utf8(body), 256)
}

/// `s` cut to its first `max` UTF-8 bytes followed by an ellipsis, where it is longer.
pub fn truncate(s: &str, max: usize) -> (r: String)
    requires
        utf8_len(s@) <= max || is_char_boundary(encode_utf8(s@), max as int),
    ensures
        r@ == truncated(s@, max as nat),
{
    if s.as_bytes().len() <= max {
        String::from_str(s)
    } else {
        let (a, _b) = s.split_at(max);
        proof {
            vstd::utf8::encode_utf8_decode_utf8(a@);
            assert(a.spec_bytes() == encode_utf8(a@));
            assert(s.spec_bytes() == encode_utf8(s@));
            assert(encode_utf8(s@).take(max as int) =~= encode_utf8(s@).subrange(0, max as int));
            assert(decode_utf8(encode_utf8(s@).take(max as int)) == a@);
        }
        let mut r = String::from_str(a);
        push_char(&mut r, '\u{2026}');
        assert(utf8_len(s@) > max);
        assert(r@ == a@.push('\u{2026}'));
        r
    }
}

fn find_sep(cs: &[char], from: usize) -> (r: Option<usize>)
    requires
        from <= cs@.len(),
    ensures
        r is Some <==> sep_from(cs@, from as int) is Some,
        r matches Some(j) ==> j == sep_from(cs@, from as int)->0,
{
    let mut i = from;
    while i < cs.len() && i + 1 < cs.len()
        invariant
            from <= i,
            sep_from(cs@, i as int) == sep_from(cs@, from as int),
        decreases cs.len() - i,
    {
        if cs[i] == '\n' && cs[i + 1] == '\n' {
            return Some(i);
        }
        i += 1;
    }
    None
}

/// Decodes an MCP reply body, given its content type.
pub fn decode_body(content_type: &str, body: &str) -> (r: Result<Json, String>)
    requires
        !decode_cuts_char(content_type@, body@),
    ensures
        match r {
            Ok(v) => decoded_body(content_type@, body@) == Ok::<JsonV, Seq<char>>(v.model()),
            Err(m) => decoded_body(content_type@, body@) == Err::<JsonV, Seq<char>>(m@),
        },
{
    if body.is_empty() {
        return Err(String::from_str("empty MCP response body"));
    }
    let lower = to_lowercase(content_type);
    let lc = chars_of(lower.as_str());
    let tag = chars_of("text/event-stream");
    assert(lc@.skip(0) =~= lc@);
    if crate::text::has_prefix_at(&lc, 0, &tag) {
        let cs = chars_of(body);
        let mut pos: usize = 0;
        loop
            invariant
                pos <= cs@.len(),
                cs@ == body@,
                body@.len() > 0,
                is_event_stream(content_type@),
                first_payload(events_from(cs@, 0)) == first_payload(events_from(cs@, pos as int)),
            decreases cs@.len() - pos,
        {
            let sep = find_sep(&cs, pos);
            let end = match sep {
                Some(j) => j,
                None => cs.len(),
            };
            proof { lemma_sep_bounds(cs@, pos as int); }
            let ghost evs = events_from(cs@, pos as int);
            assert(evs[0] == cs@.subrange(pos as int, end as int));
            let data = event_data_of(&cs, pos, end);
            if !data.as_str().is_empty() && !same_text(data.as_str(), "[DONE]") {
                match parse_json(data.as_str()) {
                    Some(v) => {
                        assert(first_payload(evs) == json_parse(data@));
                        return Ok(v);
                    },
                    None => {},
                }
            }
            assert(first_payload(evs) == first_payload(evs.skip(1)));
            match sep {
                None => {
                    assert(evs.skip(1) =~= Seq::<Seq<char>>::empty());
                    return Err(String::from_str("MCP SSE response had no parseable JSON-RPC payload"));
                },
                Some(j) => {
                    assert(evs.skip(1) =~= events_from(cs@, j + 2));
                    assert(j + 2 <= cs@.len());
                    assert(j + 2 <= cs.len());
                    pos = j + 2;
                },
            }
        }
    } else {
        match parse_json(body) {
            Some(v) => Ok(v),
            None => {
                let mut msg = String::from_str("parsing MCP JSON response: ");
                let cut = truncate(body, 256);
                msg.append(cut.as_str());
                Err(msg)
            },
        }
    }
}

/// Decodes an MCP reply body; `None` on the inputs on which the error message
/// would cut a multi-byte character (see [`decode_cuts_char`]).
pub fn try_decode_body(content_type: &str, body: &str) -> (r: Option<Result<Json, String>>)
    ensures
        r is None <==> decode_cuts_char(content_type@, body@),
        r matches Some(Ok(v)) ==> decoded_body(content_type@, body@) == Ok::<JsonV, Seq<char>>(v.model()),
        r matches Some(Err(m)) ==> decoded_body(content_type@, body@) == Err::<JsonV, Seq<char>>(m@),
{
    if !body.is_empty() && body.as_bytes().len() > 256 && !body.is_char_boundary(256) {
        let lower = to_lowercase(content_type);
        let lc = chars_of(lower.as_str());
        let tag = chars_of("text/event-stream");
        let sse = crate::text::has_prefix_at(&lc, 0, &tag);
        assert(lc@.skip(0) =~= lc@);
        if !sse && parse_json(body).is_none() {
            assert(!is_event_stream(content_type@));
            assert(utf8_len(body@) > 256);
            assert(!is_char_boundary(encode_utf8(body@), 256));
            return None;
        }
    }
    Some(decode_body(content_type, body))
}

} // verus!
