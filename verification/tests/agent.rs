use mcsoftsolution_chat::agent::{AgentAction, AgentEvent, AgentInput, AgentRun};
use mcsoftsolution_chat::handler::{
    check_chat_request, initial_messages, mcp_tool_to_openai, not_configured, openai_tools, StatusBody,
    TranscriptEntry, MAX_TOOL_ITERATIONS,
};
use mcsoftsolution_chat::json::{json_text, parse_json};
use mcsoftsolution_chat::mcp::McpTool;
use mcsoftsolution_chat::openrouter::{Message, StreamEvent, ToolCallDelta};

fn entry(role: &str, text: &str) -> TranscriptEntry {
    TranscriptEntry { role: role.to_string(), text: text.to_string() }
}

fn rejection(key: Option<&str>, history: &Vec<TranscriptEntry>) -> (u16, String) {
    match check_chat_request(key.map(|k| k.to_string()), history) {
        Ok(_) => (200, String::new()),
        Err(e) => (e.status, e.message),
    }
}

#[test]
fn chat_request_checks() {
    let good = vec![entry("assistant", "Hi!"), entry("user", "What do you offer?")];
    assert_eq!(check_chat_request(Some("k".to_string()), &good).unwrap(), "k");
    assert_eq!(rejection(None, &good), (503, "Chat is not configured on this server.".to_string()));
    assert_eq!(rejection(Some("k"), &vec![]), (400, "history is empty".to_string()));
    let long: Vec<TranscriptEntry> = (0..21).map(|_| entry("user", "hi")).collect();
    assert_eq!(rejection(Some("k"), &long), (400, "history too long".to_string()));
    let twenty: Vec<TranscriptEntry> = (0..20).map(|_| entry("user", "hi")).collect();
    assert_eq!(rejection(Some("k"), &twenty).0, 200);
    assert_eq!(
        rejection(Some("k"), &vec![entry("user", "a"), entry("assistant", "b")]),
        (400, "last entry must be a user message".to_string())
    );
    assert_eq!(rejection(Some("k"), &vec![entry("user", " \n\t ")]), (400, "user message is empty".to_string()));
    let exact = format!("  {}  ", "a".repeat(2000));
    assert_eq!(rejection(Some("k"), &vec![entry("user", &exact)]).0, 200);
    let over = "\u{e9}".repeat(1001);
    assert_eq!(rejection(Some("k"), &vec![entry("user", &over)]), (400, "user message too long".to_string()));
    let n = not_configured();
    assert_eq!((n.status, n.message.as_str()), (503, "Chat is not configured on this server."));
}

#[test]
fn initial_messages_keep_user_and_assistant_entries() {
    let h = vec![entry("user", "a"), entry("system", "x"), entry("assistant", "b"), entry("tool", "y"), entry("user", "c")];
    let ms = initial_messages("SYS".to_string(), &h);
    let roles: Vec<&str> = ms.iter().map(|m| m.role.as_str()).collect();
    assert_eq!(roles, vec!["system", "user", "assistant", "user"]);
    let texts: Vec<&str> = ms.iter().map(|m| m.content.as_deref().unwrap()).collect();
    assert_eq!(texts, vec!["SYS", "a", "b", "c"]);
}

fn tool(name: &str, schema: &str) -> McpTool {
    McpTool { name: name.to_string(), description: format!("{name} tool"), input_schema: parse_json(schema).unwrap() }
}

#[test]
fn tool_definitions_are_cleaned() {
    let t = tool("get_blog", r#"{"$schema":"http://json-schema.org/draft-07/schema#","title":"Args","properties":{"limit":{"type":"integer"}}}"#);
    assert_eq!(
        json_text(&mcp_tool_to_openai(&t)),
        r#"{"function":{"description":"get_blog tool","name":"get_blog","parameters":{"properties":{"limit":{"type":"integer"}},"type":"object"}},"type":"function"}"#
    );
    let odd = tool("odd", "[1,2]");
    assert_eq!(
        json_text(&mcp_tool_to_openai(&odd)),
        r#"{"function":{"description":"odd tool","name":"odd","parameters":{"properties":{},"type":"object"}},"type":"function"}"#
    );
    let keep = tool("keep", r#"{"type":"array","properties":{"a":1}}"#);
    assert!(json_text(&mcp_tool_to_openai(&keep)).contains(r#""parameters":{"properties":{"a":1},"type":"array"}"#));
    assert_eq!(openai_tools(&[t, odd, keep]).len(), 3);
}

#[test]
fn status_body_reports_enabled_when_a_key_resolves() {
    let s = StatusBody::configured(&Some("k".to_string()), (vec!["start".to_string()], vec![]));
    assert!(s.enabled);
    assert_eq!(s.starters, vec!["start".to_string()]);
    assert!(!StatusBody::configured(&None, (vec![], vec![])).enabled);
    let d = StatusBody::disabled();
    assert!(!d.enabled && d.starters.is_empty() && d.followups.is_empty());
}

fn text(t: &str) -> AgentInput {
    AgentInput::Stream(StreamEvent::TextDelta(t.to_string()))
}

fn delta(index: u32, id: Option<&str>, name: Option<&str>, args: Option<&str>) -> AgentInput {
    AgentInput::Stream(StreamEvent::ToolCallDelta(ToolCallDelta {
        index,
        id: id.map(|s| s.to_string()),
        name: name.map(|s| s.to_string()),
        args_delta: args.map(|s| s.to_string()),
    }))
}

fn describe(evs: &[AgentEvent]) -> Vec<String> {
    evs.iter()
        .map(|e| match e {
            AgentEvent::Text(t) => format!("text:{t}"),
            AgentEvent::ToolCallStart { id, name, args } => format!("start:{id}:{name}:{}", json_text(args)),
            AgentEvent::ToolCallResult { id, ok, summary } => format!("result:{id}:{ok}:{summary}"),
            AgentEvent::Error(m) => format!("error:{m}"),
            AgentEvent::Done => "done".to_string(),
        })
        .collect()
}

fn start() -> AgentRun {
    AgentRun::new(vec![Message::system("sys".to_string()), Message::user("hi".to_string())])
}

#[test]
fn plain_answer_ends_with_done() {
    let mut run = start();
    let (evs, act) = run.step(text("Hel"));
    assert_eq!(describe(&evs), vec!["text:Hel"]);
    assert!(matches!(act, AgentAction::ReadStream));
    run.step(text("lo"));
    run.step(AgentInput::Stream(StreamEvent::Finish { reason: "stop".to_string() }));
    let (evs, act) = run.step(AgentInput::StreamEnded);
    assert_eq!(describe(&evs), vec!["done"]);
    assert!(matches!(act, AgentAction::Stop));
    assert!(run.is_finished());
    let last = run.messages().last().unwrap();
    assert_eq!(last.role, "assistant");
    assert_eq!(last.content.as_deref(), Some("Hello"));
    let (evs, act) = run.step(text("ignored"));
    assert!(evs.is_empty() && matches!(act, AgentAction::Stop));
}

#[test]
fn tool_calls_are_announced_performed_and_reported() {
    let mut run = start();
    run.step(delta(0, Some("call_a"), Some("get_services"), Some("{\"lim")));
    run.step(delta(0, None, None, Some("it\":2}")));
    run.step(delta(1, None, Some("contact"), None));
    let (evs, act) = run.step(AgentInput::StreamEnded);
    assert_eq!(describe(&evs), vec!["start:call_a:get_services:{\"limit\":2}"]);
    match act {
        AgentAction::CallTool { name, args } => {
            assert_eq!(name, "get_services");
            assert_eq!(json_text(&args), "{\"limit\":2}");
        }
        _ => panic!("expected a tool call"),
    }
    let assistant = run.messages().last().unwrap();
    assert!(assistant.content.is_none());
    assert_eq!(assistant.tool_calls.len(), 2);
    assert_eq!(assistant.tool_calls[1].id, "call_0");
    assert_eq!(assistant.tool_calls[1].function.arguments, "{}");
    assert_eq!(assistant.tool_calls[1].kind, "function");
    let (evs, act) = run.step(AgentInput::ToolFinished(Ok("caf\u{e9}".to_string())));
    assert_eq!(describe(&evs), vec!["result:call_a:true:returned 5 chars", "start:call_0:contact:{}"]);
    assert!(matches!(act, AgentAction::CallTool { .. }));
    let (evs, act) = run.step(AgentInput::ToolFinished(Err("tool error: nope".to_string())));
    assert_eq!(describe(&evs), vec!["result:call_0:false:tool error: nope"]);
    assert!(matches!(act, AgentAction::CallModel));
    let ms = run.messages();
    let n = ms.len();
    assert_eq!(ms[n - 2].tool_call_id.as_deref(), Some("call_a"));
    assert_eq!(ms[n - 2].content.as_deref(), Some("caf\u{e9}"));
    assert_eq!(ms[n - 1].content.as_deref(), Some(r#"{"error":"tool error: nope"}"#));
    let (evs, act) = run.step(text("Done."));
    assert_eq!(describe(&evs), vec!["text:Done."]);
    assert!(matches!(act, AgentAction::ReadStream));
    let (evs, _) = run.step(AgentInput::StreamEnded);
    assert_eq!(describe(&evs), vec!["done"]);
}

#[test]
fn summary_is_capped_at_9999() {
    let mut run = start();
    run.step(delta(0, Some("c"), Some("t"), None));
    run.step(AgentInput::StreamEnded);
    let (evs, _) = run.step(AgentInput::ToolFinished(Ok("x".repeat(20000))));
    assert_eq!(describe(&evs)[0], "result:c:true:returned 9999 chars");
}

#[test]
fn budget_allows_six_model_calls() {
    let mut run = start();
    let mut model_calls = 1;
    let mut all = Vec::new();
    loop {
        run.step(delta(0, None, Some("loop"), Some("not json")));
        let (evs, act) = run.step(AgentInput::StreamEnded);
        all.extend(describe(&evs));
        assert!(matches!(act, AgentAction::CallTool { .. }));
        let (evs, act) = run.step(AgentInput::ToolFinished(Ok(String::new())));
        all.extend(describe(&evs));
        match act {
            AgentAction::CallModel => model_calls += 1,
            AgentAction::Stop => break,
            _ => panic!("unexpected action"),
        }
    }
    assert_eq!(model_calls, MAX_TOOL_ITERATIONS);
    assert_eq!(all[0], "start:call_0:loop:{}");
    assert_eq!(all[all.len() - 3], "result:call_5:true:returned 0 chars");
    assert_eq!(all[all.len() - 2], "error:conversation exceeded tool-call budget");
    assert_eq!(all[all.len() - 1], "done");
    assert_eq!(all.iter().filter(|e| *e == "done").count(), 1);
}

#[test]
fn failures_end_the_run() {
    let mut run = start();
    let (evs, act) = run.step(AgentInput::ModelUnavailable("openrouter error 402".to_string()));
    assert_eq!(describe(&evs), vec!["error:upstream error: openrouter error 402", "done"]);
    assert!(matches!(act, AgentAction::Stop));
    let mut run = start();
    run.step(text("partial"));
    let (evs, act) = run.step(AgentInput::StreamFailed("parsing SSE data line: x".to_string()));
    assert_eq!(describe(&evs), vec!["error:stream error: parsing SSE data line: x", "done"]);
    assert!(matches!(act, AgentAction::Stop));
}
