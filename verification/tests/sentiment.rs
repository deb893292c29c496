use desky::llm::sentiment::{
    classify_message, classify_reply, classify_uppercased, judge_instructions, ClassifyStep, Sentiment,
};
use desky::persona::Persona;

fn test_persona(likes: &str, dislikes: &str) -> Persona {
    Persona {
        id: "test".to_string(),
        name: "TestBot".to_string(),
        description: String::new(),
        system_prompt: "You are TestBot.".to_string(),
        sprite_sheet: None,
        is_builtin: false,
        love: 0,
        likes: likes.to_string(),
        dislikes: dislikes.to_string(),
        example_dialogue: String::new(),
        first_message: String::new(),
    }
}

#[test]
fn skips_llm_call_when_unconfigured() {
    let persona = test_persona("", "");
    let result = classify_message(&persona, "anything at all");
    match result {
        ClassifyStep::Decided(s) => assert_eq!(s, Sentiment::Neutral),
        ClassifyStep::Ask(_) => panic!("should not ask the model"),
    }
}

#[test]
fn blank_likes_count_as_unconfigured() {
    let persona = test_persona("   ", "\n\t");
    assert!(judge_instructions(&persona).is_none());
    assert!(matches!(
        classify_message(&persona, "hi"),
        ClassifyStep::Decided(Sentiment::Neutral)
    ));
}

#[test]
fn instructions_mention_only_configured_sides() {
    let both = judge_instructions(&test_persona(" cats ", "dogs")).unwrap();
    assert_eq!(
        both,
        "You are judging whether a single message aligns with what TestBot likes or dislikes, \
         for an affection meter in a chat app. TestBot responds positively to: cats. \
         TestBot responds negatively to: dogs. Read the user's message below and decide: does \
         it align with what they like, what they dislike, or neither? Respond with exactly one \
         word: LIKE, DISLIKE, or NEUTRAL \u{2014} nothing else."
    );
    let likes_only = judge_instructions(&test_persona("cats", "")).unwrap();
    assert!(likes_only.contains("TestBot responds positively to: cats. "));
    assert!(!likes_only.contains("negatively"));
    let dislikes_only = judge_instructions(&test_persona("", "dogs")).unwrap();
    assert!(dislikes_only.contains("TestBot responds negatively to: dogs. "));
    assert!(!dislikes_only.contains("positively"));
}

#[test]
fn configured_persona_asks_the_model() {
    match classify_message(&test_persona("cats", ""), "I love cats") {
        ClassifyStep::Ask(msgs) => {
            assert_eq!(msgs.len(), 2);
            assert_eq!(msgs[0].role, "system");
            assert!(msgs[0].content.starts_with("You are judging"));
            assert_eq!(msgs[1].role, "user");
            assert_eq!(msgs[1].content, "I love cats");
        }
        ClassifyStep::Decided(_) => panic!("should ask the model"),
    }
}

#[test]
fn replies_are_read_case_insensitively_with_dislike_first() {
    assert_eq!(classify_reply("DISLIKE"), Sentiment::Disliked);
    assert_eq!(classify_reply("dislike."), Sentiment::Disliked);
    assert_eq!(classify_reply("LIKE"), Sentiment::Liked);
    assert_eq!(classify_reply("  Like  "), Sentiment::Liked);
    assert_eq!(classify_reply("NEUTRAL"), Sentiment::Neutral);
    assert_eq!(classify_reply(""), Sentiment::Neutral);
    assert_eq!(classify_reply("unlikely"), Sentiment::Liked);
}

#[test]
fn delta_and_names() {
    assert_eq!(Sentiment::Liked.delta(), 1);
    assert_eq!(Sentiment::Disliked.delta(), -1);
    assert_eq!(Sentiment::Neutral.delta(), 0);
    assert_eq!(Sentiment::Liked.as_str(), "liked");
    assert_eq!(Sentiment::Disliked.as_str(), "disliked");
    assert_eq!(Sentiment::Neutral.as_str(), "neutral");
}

#[test]
fn verdict_of_upper_cased_text_is_case_sensitive() {
    assert_eq!(classify_uppercased("I DISLIKE"), Sentiment::Disliked);
    assert_eq!(classify_uppercased("LIKE"), Sentiment::Liked);
    assert_eq!(classify_uppercased("like"), Sentiment::Neutral);
    assert_eq!(classify_uppercased("NEUTRAL"), Sentiment::Neutral);
}
