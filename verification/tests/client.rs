use desky::llm::client::{
    ChatMessage, SseDecoder, StreamAccumulator, ToolCall, ToolCallDelta,
};

#[test]
fn decoder_yields_data_payloads_of_finished_lines() {
    let mut d = SseDecoder::new();
    let out = d.push_text("data: {\"a\":1}\n\n: comment\ndata:[DONE]\ndata:   \nevent: x\n  data: {\"b\":2}  \r\ndata: partial");
    assert_eq!(out, vec!["{\"a\":1}", "{\"b\":2}"]);
    let out = d.push_text(" rest\n");
    assert_eq!(out, vec!["partial rest"]);
    assert!(d.push_text("").is_empty());
}

#[test]
fn chunking_does_not_change_payloads() {
    let stream = "data: one\ndata: two\n\ndata: [DONE]\ndata: three\n";
    let mut whole = SseDecoder::new();
    let all = whole.push_text(stream);
    for cut in 0..=stream.len() {
        if !stream.is_char_boundary(cut) {
            continue;
        }
        let mut d = SseDecoder::new();
        let mut got = d.push_text(&stream[..cut]);
        got.extend(d.push_text(&stream[cut..]));
        assert_eq!(got, all, "cut at {cut}");
    }
    assert_eq!(all, vec!["one", "two", "three"]);
}

#[test]
fn bytes_are_decoded_lossily() {
    let mut d = SseDecoder::new();
    let out = d.push_bytes(b"data: caf\xc3\xa9\ndata: bad\xff\n");
    assert_eq!(out, vec!["caf\u{e9}".to_string(), "bad\u{fffd}".to_string()]);
}

#[test]
fn byte_chunks_cut_at_character_boundaries_give_the_same_payloads() {
    let stream = "data: caf\u{e9} \u{1f600}\ndata: two\n".as_bytes();
    let mut whole = SseDecoder::new();
    let all = whole.push_bytes(stream);
    assert_eq!(all, vec!["caf\u{e9} \u{1f600}".to_string(), "two".to_string()]);
    let text = std::str::from_utf8(stream).unwrap();
    for cut in 0..=stream.len() {
        let mut d = SseDecoder::new();
        let mut got = d.push_bytes(&stream[..cut]);
        got.extend(d.push_bytes(&stream[cut..]));
        if text.is_char_boundary(cut) {
            assert_eq!(got, all, "cut at {cut}");
        } else {
            assert_ne!(got, all, "cut at {cut}");
        }
    }
}

#[test]
fn accumulator_concatenates_text_and_merges_tool_calls_by_index() {
    let mut acc = StreamAccumulator::new();
    acc.add_content("Let me ");
    acc.add_content("check.");
    acc.add_tool_delta(ToolCallDelta {
        index: 0,
        id: Some("call_1".to_string()),
        name: Some("list_processes".to_string()),
        arguments: Some("{\"sort_".to_string()),
    });
    acc.add_tool_delta(ToolCallDelta {
        index: 1,
        id: Some("call_2".to_string()),
        name: Some("get_system_info".to_string()),
        arguments: None,
    });
    acc.add_tool_delta(ToolCallDelta {
        index: 0,
        id: None,
        name: None,
        arguments: Some("by\":\"cpu\"}".to_string()),
    });
    let r = acc.finish();
    assert_eq!(r.content, "Let me check.");
    assert_eq!(r.tool_calls.len(), 2);
    assert_eq!(r.tool_calls[0].id, "call_1");
    assert_eq!(r.tool_calls[0].name, "list_processes");
    assert_eq!(r.tool_calls[0].arguments, "{\"sort_by\":\"cpu\"}");
    assert_eq!(r.tool_calls[1].id, "call_2");
    assert_eq!(r.tool_calls[1].arguments, "");
}

#[test]
fn message_constructors() {
    let m = ChatMessage::assistant_tool_calls(
        None,
        vec![ToolCall {
            id: "1".to_string(),
            name: "n".to_string(),
            arguments: String::new(),
        }],
    );
    assert_eq!(m.role, "assistant");
    assert_eq!(m.content, "");
    assert_eq!(m.tool_calls.len(), 1);
    let t = ChatMessage::tool_result("1".to_string(), "{}".to_string());
    assert_eq!(t.role, "tool");
    assert_eq!(t.tool_call_id.as_deref(), Some("1"));
    assert_eq!(ChatMessage::user("u".to_string()).role, "user");
    assert_eq!(ChatMessage::assistant("a".to_string()).role, "assistant");
}
