use desky::llm::chat_loop::{
    begin_chat_turn, mentions_system_topic, mentions_topic_tokens, new_conversation, split_words, record_tool_result, tokenize,
    with_tool_reminder, ChatPhase, ChatTurn, CompletionOutcome, DISPLAY_PANEL_PLACEHOLDER,
    MAX_TOOL_ITERATIONS, TOOL_LOOP_EXHAUSTED, TOOL_REMINDER,
};
use desky::llm::client::{ChatMessage, StreamResult, ToolCall};
use desky::tools::ToolRegistry;

#[test]
fn detects_system_topics() {
    assert!(mentions_system_topic("how much RAM do I have?"));
    assert!(mentions_system_topic("What's my OS and kernel version"));
    assert!(mentions_system_topic("check my cpu usage"));
    assert!(mentions_system_topic("list running processes"));
    assert!(mentions_system_topic("how much free space do I have on disk"));
}

#[test]
fn ignores_unrelated_messages() {
    assert!(!mentions_system_topic("omg hi desky"));
    assert!(!mentions_system_topic("can you write me a poem"));
    assert!(!mentions_system_topic("I'm doing a marathon program tomorrow"));
    assert!(!mentions_system_topic("what's the closest grocery store"));
}

#[test]
fn matches_whole_words_not_substrings() {
    // "osmium" contains "os", "diagram"/"program" contain "ram" — none
    // of these should match on raw substring alone.
    assert!(!mentions_system_topic("osmium is a dense metal"));
    assert!(!mentions_system_topic("draw me a diagram"));
    assert!(!mentions_system_topic("write a program that sorts a list"));
    assert!(!mentions_system_topic("host a dinner party for hostess duty"));
    // but the real standalone words still match
    assert!(mentions_system_topic("what OS is this"));
    assert!(mentions_system_topic("how much ram do I have"));
}

fn token_strings(message: &str) -> Vec<String> {
    tokenize(message)
        .into_iter()
        .map(|t| t.into_iter().collect())
        .collect()
}

#[test]
fn tokenize_lowercases_and_splits_on_non_alphanumerics() {
    assert_eq!(
        token_strings("What's my OS -- Kernel_v2!"),
        vec!["what", "s", "my", "os", "kernel", "v2"]
    );
    assert_eq!(token_strings(""), Vec::<String>::new());
    assert_eq!(token_strings("  ,,  "), Vec::<String>::new());
    assert_eq!(token_strings("ÜBER größe"), vec!["über", "größe"]);
}

#[test]
fn phrases_need_consecutive_tokens() {
    assert!(mentions_system_topic("how's the disk space"));
    assert!(!mentions_system_topic("the disk has no space"));
    assert!(mentions_system_topic("what's the HOST NAME"));
    assert!(mentions_system_topic("operating-system?"));
}

#[test]
fn reminder_is_appended_only_to_system_questions() {
    let plain = with_tool_reminder("tell me a joke".to_string());
    assert_eq!(plain, "tell me a joke");
    let nudged = with_tool_reminder("how much RAM".to_string());
    assert_eq!(nudged, format!("how much RAM{TOOL_REMINDER}"));
    assert!(nudged.contains("get_system_info and list_processes"));
}

#[test]
fn new_conversation_holds_only_the_system_prompt() {
    let h = new_conversation("You are Desky.");
    assert_eq!(h.len(), 1);
    assert_eq!(h[0].role, "system");
    assert_eq!(h[0].content, "You are Desky.");
    assert!(h[0].tool_calls.is_empty());
    assert!(h[0].tool_call_id.is_none());
}

#[test]
fn phase_status_texts() {
    assert_eq!(ChatPhase::Thinking.status_text(), "thinking");
    let p = ChatPhase::CallingTool {
        name: "get_system_info".to_string(),
    };
    assert_eq!(p.status_text(), "calling_tool:get_system_info");
}

fn call(id: &str, name: &str) -> ToolCall {
    ToolCall {
        id: id.to_string(),
        name: name.to_string(),
        arguments: "{}".to_string(),
    }
}

#[test]
fn turn_finishes_on_a_plain_answer() {
    let mut history = new_conversation("sys");
    let mut turn = begin_chat_turn(&mut history, "hello".to_string());
    assert_eq!(history.len(), 2);
    assert_eq!(history[1].role, "user");
    assert_eq!(history[1].content, "hello");
    assert!(turn.may_request());
    let outcome = turn.record_completion(
        &mut history,
        StreamResult {
            content: "Hi there!".to_string(),
            tool_calls: vec![],
        },
    );
    match outcome {
        CompletionOutcome::Finished { segment } => assert_eq!(segment.as_deref(), Some("Hi there!")),
        CompletionOutcome::CallTools { .. } => panic!("expected a final answer"),
    }
    assert_eq!(history.len(), 3);
    assert_eq!(history[2].role, "assistant");
    assert_eq!(history[2].content, "Hi there!");
}

#[test]
fn empty_answer_is_no_segment() {
    let mut history = new_conversation("sys");
    let mut turn = begin_chat_turn(&mut history, "hello".to_string());
    match turn.record_completion(
        &mut history,
        StreamResult {
            content: String::new(),
            tool_calls: vec![],
        },
    ) {
        CompletionOutcome::Finished { segment } => assert!(segment.is_none()),
        CompletionOutcome::CallTools { .. } => panic!("expected a final answer"),
    }
    assert_eq!(history[2].content, "");
}

#[test]
fn tool_calls_are_recorded_and_results_follow() {
    let tools = ToolRegistry::new();
    let mut history = new_conversation("sys");
    let mut turn = begin_chat_turn(&mut history, "what OS is this".to_string());
    assert!(history[1].content.ends_with(TOOL_REMINDER));
    let outcome = turn.record_completion(
        &mut history,
        StreamResult {
            content: "let me check".to_string(),
            tool_calls: vec![call("c1", "get_system_info")],
        },
    );
    let calls = match outcome {
        CompletionOutcome::CallTools { segment, calls } => {
            assert_eq!(segment.as_deref(), Some("let me check"));
            calls
        }
        CompletionOutcome::Finished { .. } => panic!("expected tool calls"),
    };
    assert_eq!(calls.len(), 1);
    assert_eq!(history[2].role, "assistant");
    assert_eq!(history[2].content, "let me check");
    assert_eq!(history[2].tool_calls.len(), 1);
    assert_eq!(history[2].tool_calls[0].id, "c1");

    let value: serde_json::Value = serde_json::from_str(r#"{"os_name":"Linux"}"#).unwrap();
    let is_panel = record_tool_result(
        &mut history,
        &tools,
        calls.into_iter().next().unwrap(),
        value.to_string(),
    );
    assert!(!is_panel);
    assert_eq!(history.len(), 4);
    assert_eq!(history[3].role, "tool");
    assert_eq!(history[3].tool_call_id.as_deref(), Some("c1"));
    assert_eq!(history[3].content, r#"{"os_name":"Linux"}"#);
    assert_ne!(history[3].content, DISPLAY_PANEL_PLACEHOLDER);
}

#[test]
fn tool_call_without_text_has_empty_content_and_no_segment() {
    let mut history = new_conversation("sys");
    let mut turn = begin_chat_turn(&mut history, "cpu?".to_string());
    match turn.record_completion(
        &mut history,
        StreamResult {
            content: String::new(),
            tool_calls: vec![call("a", "list_processes"), call("b", "get_system_info")],
        },
    ) {
        CompletionOutcome::CallTools { segment, calls } => {
            assert!(segment.is_none());
            assert_eq!(calls.len(), 2);
            assert_eq!(calls[1].id, "b");
        }
        CompletionOutcome::Finished { .. } => panic!("expected tool calls"),
    }
    assert_eq!(history[2].content, "");
}

#[test]
fn a_turn_allows_at_most_four_completions() {
    assert_eq!(MAX_TOOL_ITERATIONS, 4);
    let mut history = new_conversation("sys");
    let mut turn: ChatTurn = begin_chat_turn(&mut history, "loop".to_string());
    let mut count = 0;
    while turn.may_request() {
        turn.record_completion(
            &mut history,
            StreamResult {
                content: String::new(),
                tool_calls: vec![call("x", "get_system_info")],
            },
        );
        count += 1;
    }
    assert_eq!(count, 4);
    assert_eq!(history.len(), 2 + 4);
    assert_eq!(
        TOOL_LOOP_EXHAUSTED,
        "exceeded max tool-call iterations without a final response"
    );
}

#[test]
fn unknown_tool_result_is_not_a_panel() {
    let tools = ToolRegistry::new();
    let mut history: Vec<ChatMessage> = Vec::new();
    let value: serde_json::Value = serde_json::from_str(r#"{"error":"unknown tool: nope"}"#).unwrap();
    assert!(!record_tool_result(&mut history, &tools, call("z", "nope"), value.to_string()));
    assert_eq!(history[0].content, r#"{"error":"unknown tool: nope"}"#);
    assert_eq!(history[0].tool_call_id.as_deref(), Some("z"));
}

#[test]
fn a_tool_result_is_recorded_as_its_text() {
    let tools = ToolRegistry::new();
    let mut history: Vec<ChatMessage> = Vec::new();
    assert!(!record_tool_result(&mut history, &tools, call("p", "list_processes"), "[1,2]".to_string()));
    assert!(!record_tool_result(&mut history, &tools, call("q", "get_system_info"), String::new()));
    assert_eq!(history.len(), 2);
    assert_eq!(history[0].content, "[1,2]");
    assert_eq!(history[1].content, "");
    assert_eq!(history[1].role, "tool");
    assert!(history[1].tool_calls.is_empty());
}

fn chars(s: &str) -> Vec<char> {
    s.chars().collect()
}

#[test]
fn topic_matching_on_given_tokens() {
    let words = |ws: &[&str]| ws.iter().map(|w| chars(w)).collect::<Vec<Vec<char>>>();
    assert!(mentions_topic_tokens(&words(&["my", "cpu"])));
    assert!(mentions_topic_tokens(&words(&["free", "space"])));
    assert!(!mentions_topic_tokens(&words(&["space", "free"])));
    assert!(!mentions_topic_tokens(&words(&["CPU"])));
    assert!(!mentions_topic_tokens(&words(&[])));
    let split: Vec<String> = split_words(&chars("a1--b  c"))
        .into_iter()
        .map(|w| w.into_iter().collect())
        .collect();
    assert_eq!(split, vec!["a1", "b", "c"]);
}
