use desky::llm::chat_loop::tokenize;
use desky::llm::client::SseDecoder;
use desky::llm::sentiment::{classify_reply, Sentiment};
use desky::text::{chars_of, contains_chars, decimal_string, is_blank, is_whitespace, trim};

#[test]
fn whitespace_agrees_with_std_on_every_char() {
    for u in 0u32..=0x10FFFF {
        if let Some(c) = char::from_u32(u) {
            assert_eq!(is_whitespace(c), c.is_whitespace(), "U+{u:04X}");
        }
    }
}

#[test]
fn trim_agrees_with_std() {
    for s in ["", "  ", " a ", "\u{a0}x\u{3000}", "\t\nab c\r\n", "\u{200b}x"] {
        assert_eq!(trim(s), s.trim());
        assert_eq!(is_blank(s), s.trim().is_empty());
    }
}

#[test]
fn case_and_class_come_from_std() {
    let words: Vec<String> = tokenize("RAM ÄÖ x-7é")
        .into_iter()
        .map(|t| t.into_iter().collect())
        .collect();
    assert_eq!(words, vec!["ram", "äö", "x", "7é"]);
    assert_eq!(classify_reply("i dislike it"), Sentiment::Disliked);
    assert_eq!(classify_reply("straße like"), Sentiment::Liked);
    let mut d = SseDecoder::new();
    assert_eq!(d.push_bytes(b"data: ok\xff\n"), vec!["ok\u{fffd}".to_string()]);
}

#[test]
fn substring_search() {
    let hay = chars_of("I DISLIKE IT");
    assert!(contains_chars(&hay, &chars_of("LIKE")));
    assert!(contains_chars(&hay, &chars_of("")));
    assert!(!contains_chars(&hay, &chars_of("LIKES")));
    assert!(!contains_chars(&chars_of(""), &chars_of("a")));
}

#[test]
fn decimal_rendering() {
    for n in [0u64, 7, 10, 99, 100, 8090, u64::MAX] {
        assert_eq!(decimal_string(n), n.to_string());
    }
}
