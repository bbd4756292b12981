use mcsoftsolution_chat::json::parse_json;
use mcsoftsolution_chat::openrouter::{
    extract_events, parse_sse_event, Message, ParsedEvent, SseDecoder, StreamEvent, StreamStatus,
};
use mcsoftsolution_chat::sse::{event_data_of, find_event_boundary};

fn data(raw: &str) -> String {
    let cs: Vec<char> = raw.chars().collect();
    event_data_of(&cs, 0, cs.len())
}

#[test]
fn find_event_boundary_points_past_blank_line() {
    assert_eq!(find_event_boundary(b"data: x\n\nrest"), Some(9));
    assert_eq!(find_event_boundary(b"\n\n"), Some(2));
    assert_eq!(find_event_boundary(b"data: x\ndata: y\n"), None);
    assert_eq!(find_event_boundary(b""), None);
}

#[test]
fn event_data_joins_data_lines() {
    assert_eq!(data("data: a\ndata: b\n\n"), "a\nb");
    assert_eq!(data("data:no-space\r\n\r\n"), "no-space");
    assert_eq!(data(": comment\nevent: x\ndata:  two spaces\n"), " two spaces");
    assert_eq!(data("id: 4\n\n"), "");
    assert_eq!(data("data:\ndata: x\n"), "x");
}

#[test]
fn parse_sse_event_cases() {
    assert!(matches!(parse_sse_event(": keep-alive\n\n"), Ok(None)));
    assert!(matches!(parse_sse_event("data: [DONE]\n\n"), Ok(Some(ParsedEvent::Done))));
    match parse_sse_event("data: {\"choices\": []}\n\n") {
        Ok(Some(ParsedEvent::Chunk(v))) => assert!(v.get("choices").is_some()),
        _ => panic!("expected a chunk"),
    }
    match parse_sse_event("data: {broken\n\n") {
        Err(m) => assert_eq!(m, "parsing SSE data line: {broken"),
        _ => panic!("expected an error"),
    }
}

#[test]
fn extract_events_reads_text_tool_calls_and_finish() {
    let chunk = parse_json(
        r#"{"choices":[{"delta":{"content":"Hi","tool_calls":[{"index":1,"id":"c1","function":{"name":"get","arguments":"{\"a\""}},{"function":{"arguments":"1}"}}]},"finish_reason":"tool_calls"}]}"#,
    )
    .unwrap();
    let evs = extract_events(&chunk);
    assert_eq!(evs.len(), 4);
    match &evs[0] {
        StreamEvent::TextDelta(t) => assert_eq!(t, "Hi"),
        _ => panic!(),
    }
    match &evs[1] {
        StreamEvent::ToolCallDelta(d) => {
            assert_eq!(d.index, 1);
            assert_eq!(d.id.as_deref(), Some("c1"));
            assert_eq!(d.name.as_deref(), Some("get"));
            assert_eq!(d.args_delta.as_deref(), Some("{\"a\""));
        }
        _ => panic!(),
    }
    match &evs[2] {
        StreamEvent::ToolCallDelta(d) => {
            assert_eq!(d.index, 0);
            assert!(d.id.is_none() && d.name.is_none());
            assert_eq!(d.args_delta.as_deref(), Some("1}"));
        }
        _ => panic!(),
    }
    match &evs[3] {
        StreamEvent::Finish { reason } => assert_eq!(reason, "tool_calls"),
        _ => panic!(),
    }
}

#[test]
fn extract_events_skips_empty_text_and_missing_choices() {
    let chunk = parse_json(r#"{"choices":[{"delta":{"content":""}}]}"#).unwrap();
    assert!(extract_events(&chunk).is_empty());
    let chunk = parse_json(r#"{"id":"x"}"#).unwrap();
    assert!(extract_events(&chunk).is_empty());
}

#[test]
fn extract_events_cuts_large_index_to_32_bits() {
    let chunk = parse_json(r#"{"choices":[{"delta":{"tool_calls":[{"index":4294967297}]}}]}"#).unwrap();
    match &extract_events(&chunk)[0] {
        StreamEvent::ToolCallDelta(d) => assert_eq!(d.index, 1),
        _ => panic!(),
    }
}

fn texts(evs: &[StreamEvent]) -> Vec<String> {
    evs.iter()
        .filter_map(|e| match e {
            StreamEvent::TextDelta(t) => Some(t.clone()),
            _ => None,
        })
        .collect()
}

const STREAM: &str = "data: {\"choices\":[{\"delta\":{\"content\":\"Hel\"}}]}\n\n: ping\n\ndata: {\"choices\":[{\"delta\":{\"content\":\"lo\u{e9}\"}}]}\n\ndata: [DONE]\n\ndata: {\"choices\":[{\"delta\":{\"content\":\"late\"}}]}\n\n";

#[test]
fn decoder_reads_a_whole_stream() {
    let mut d = SseDecoder::new();
    let (evs, status) = d.feed(STREAM.as_bytes());
    assert_eq!(texts(&evs), vec!["Hel".to_string(), "lo\u{e9}".to_string()]);
    assert!(matches!(status, StreamStatus::Done));
}

#[test]
fn decoder_gives_the_same_events_for_any_chunking() {
    let bytes = STREAM.as_bytes();
    for cut in 0..bytes.len() {
        let mut d = SseDecoder::new();
        let (mut evs, s1) = d.feed(&bytes[..cut]);
        let status = match s1 {
            StreamStatus::Open => {
                let (more, s2) = d.feed(&bytes[cut..]);
                evs.extend(more);
                s2
            }
            other => other,
        };
        assert_eq!(texts(&evs), vec!["Hel".to_string(), "lo\u{e9}".to_string()], "cut at {cut}");
        assert!(matches!(status, StreamStatus::Done));
    }
}

#[test]
fn decoder_waits_for_a_complete_event() {
    let mut d = SseDecoder::new();
    let (evs, status) = d.feed(b"data: {\"choices\":[]}\n");
    assert!(evs.is_empty());
    assert!(matches!(status, StreamStatus::Open));
}

#[test]
fn decoder_fails_on_invalid_utf8_and_json() {
    let mut d = SseDecoder::new();
    let (_, status) = d.feed(b"data: \xff\n\n");
    match status {
        StreamStatus::Failed(m) => assert_eq!(m, "non-utf8 SSE event"),
        _ => panic!(),
    }
    let mut d = SseDecoder::new();
    let (_, status) = d.feed(b"data: nope\n\n");
    match status {
        StreamStatus::Failed(m) => assert_eq!(m, "parsing SSE data line: nope"),
        _ => panic!(),
    }
}

#[test]
fn message_constructors_set_roles() {
    let m = Message::system("s".to_string());
    assert_eq!(m.role, "system");
    assert_eq!(m.content.as_deref(), Some("s"));
    assert_eq!(Message::user("u".to_string()).role, "user");
    assert_eq!(Message::assistant_text("a".to_string()).role, "assistant");
    let t = Message::tool("id1".to_string(), "out".to_string());
    assert_eq!(t.role, "tool");
    assert_eq!(t.tool_call_id.as_deref(), Some("id1"));
    let c = Message::assistant_tool_calls(None, vec![]);
    assert_eq!(c.role, "assistant");
    assert!(c.content.is_none() && c.tool_calls.is_empty() && c.tool_call_id.is_none());
}
