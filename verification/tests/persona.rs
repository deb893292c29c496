use desky::persona::{sort_by_name, Persona, PersonaStore};
use std::path::PathBuf;

fn test_persona(system_prompt: &str, example_dialogue: &str) -> Persona {
    Persona {
        id: "test".to_string(),
        name: "Test".to_string(),
        description: String::new(),
        system_prompt: system_prompt.to_string(),
        sprite_sheet: None,
        is_builtin: false,
        love: 0,
        likes: String::new(),
        dislikes: String::new(),
        example_dialogue: example_dialogue.to_string(),
        first_message: String::new(),
    }
}

fn named(id: &str, name: &str) -> Persona {
    let mut p = test_persona("prompt", "");
    p.id = id.to_string();
    p.name = name.to_string();
    p
}

#[test]
fn no_example_dialogue_is_just_the_base_prompt() {
    let persona = test_persona("You are Test.", "");
    assert_eq!(persona.compose_system_prompt(), "You are Test.");
}

#[test]
fn example_dialogue_gets_folded_in_with_instruction() {
    let persona = test_persona("You are Test.", "User: hi\nTest: heya!");
    let prompt = persona.compose_system_prompt();

    assert!(prompt.contains("You are Test."));
    assert!(prompt.contains("User: hi\nTest: heya!"));
    assert!(prompt.contains("Match this voice and style"));
}

#[test]
fn different_example_dialogue_produces_different_prompts() {
    let a = test_persona("You are Test.", "Test: sup.");
    let b = test_persona("You are Test.", "Test: Good day to you, friend.");
    assert_ne!(a.compose_system_prompt(), b.compose_system_prompt());
}

#[test]
fn composed_prompt_exact_text_and_trimming() {
    let p = test_persona("  You are Test.\n", "\tTest: sup.  ");
    assert_eq!(
        p.compose_system_prompt(),
        "You are Test.\n\nHere's an example of how you talk:\nTest: sup.\n\nMatch this voice and style."
    );
    let blank = test_persona(" You are Test. ", " \n\t ");
    assert_eq!(blank.compose_system_prompt(), "You are Test.");
    let nbsp = test_persona("\u{a0}\u{3000}X\u{2028}", "");
    assert_eq!(nbsp.compose_system_prompt(), "X");
}

#[test]
fn resolve_prefers_the_requested_persona() {
    let store = PersonaStore::at(PathBuf::from("/tmp/personas"));
    let listed = vec![named("concise", "Concise"), named("friendly", "Friendly")];
    let r = store.resolve_active(listed, Some("friendly")).unwrap();
    assert_eq!(r.id, "friendly");
}

#[test]
fn resolve_falls_back_to_the_first_listed() {
    let store = PersonaStore::at(PathBuf::from("/tmp/personas"));
    let listed = vec![named("concise", "Concise"), named("friendly", "Friendly")];
    assert_eq!(store.resolve_active(listed, Some("gone")).unwrap().id, "concise");
    let listed = vec![named("snarky", "Snarky")];
    assert_eq!(store.resolve_active(listed, None).unwrap().id, "snarky");
    assert!(store.resolve_active(Vec::new(), Some("concise")).is_none());
    assert!(store.resolve_active(Vec::new(), None).is_none());
}

#[test]
fn store_paths_and_presets() {
    let store = PersonaStore::at(PathBuf::from("/tmp/personas"));
    assert_eq!(store.dir(), &PathBuf::from("/tmp/personas"));
    assert_eq!(PersonaStore::file_name("concise"), "concise.json");
    assert_eq!(PersonaStore::bundled_index("friendly"), Some(0));
    assert_eq!(PersonaStore::bundled_index("concise"), Some(1));
    assert_eq!(PersonaStore::bundled_index("snarky"), Some(2));
    assert_eq!(PersonaStore::bundled_index("custom"), None);
    assert_eq!(PersonaStore::bundled_index("Concise"), None);
    assert!(PersonaStore::is_persona_file(Some("json")));
    assert!(!PersonaStore::is_persona_file(Some("JSON")));
    assert!(!PersonaStore::is_persona_file(Some("txt")));
    assert!(!PersonaStore::is_persona_file(None));
}

#[test]
fn sorting_by_name_is_stable_and_by_code_point() {
    let personas = vec![
        named("s", "Snarky"),
        named("b", "Beta"),
        named("c", "Concise"),
        named("b2", "Beta"),
        named("a", "alpha"),
        named("e", ""),
    ];
    let sorted = sort_by_name(&personas);
    let ids: Vec<&str> = sorted.iter().map(|p| p.id.as_str()).collect();
    assert_eq!(ids, vec!["e", "b", "b2", "c", "s", "a"]);
    let mut expected = personas.clone();
    expected.sort_by(|a, b| a.name.cmp(&b.name));
    let expected_ids: Vec<&str> = expected.iter().map(|p| p.id.as_str()).collect();
    assert_eq!(ids, expected_ids);
    assert!(sort_by_name(&Vec::new()).is_empty());
}

#[test]
fn duplicate_copies_every_field() {
    let mut p = test_persona("x", "y");
    p.sprite_sheet = Some("cat".to_string());
    p.love = -3;
    let d = p.duplicate();
    assert_eq!(d.sprite_sheet.as_deref(), Some("cat"));
    assert_eq!(d.love, -3);
    assert_eq!(d.example_dialogue, "y");
}
