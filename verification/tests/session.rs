use desky::config::Settings;
use desky::persona::Persona;
use desky::session::{
    activate_fallback, activate_persona, check_can_delete, history_after_edit,
    initial_system_prompt, is_active_persona, reset_outcome, FALLBACK_SYSTEM_PROMPT,
};

fn persona(id: &str, prompt: &str) -> Persona {
    Persona {
        id: id.to_string(),
        name: id.to_string(),
        description: String::new(),
        system_prompt: prompt.to_string(),
        sprite_sheet: None,
        is_builtin: true,
        love: 0,
        likes: String::new(),
        dislikes: String::new(),
        example_dialogue: String::new(),
        first_message: String::new(),
    }
}

#[test]
fn initial_prompt_uses_persona_or_fallback() {
    assert_eq!(initial_system_prompt(None), FALLBACK_SYSTEM_PROMPT);
    assert_eq!(
        FALLBACK_SYSTEM_PROMPT,
        "You are Desky, a friendly and concise local desktop assistant."
    );
    let p = persona("concise", " Be brief. ");
    assert_eq!(initial_system_prompt(Some(&p)), "Be brief.");
}

#[test]
fn the_last_persona_cannot_be_deleted() {
    assert_eq!(
        check_can_delete(1),
        Err("can't delete the only remaining persona".to_string())
    );
    assert!(check_can_delete(0).is_err());
    assert_eq!(check_can_delete(2), Ok(()));
}

#[test]
fn activation_switches_persona_and_restarts() {
    let mut s = Settings::default();
    let err = activate_persona(&mut s, "ghost".to_string(), None).unwrap_err();
    assert_eq!(err, "persona not found: ghost");
    assert!(s.active_persona_id.is_none());
    let h = activate_persona(&mut s, "snarky".to_string(), Some(persona("snarky", "Be snarky.")))
        .unwrap();
    assert_eq!(s.active_persona_id.as_deref(), Some("snarky"));
    assert_eq!(h.len(), 1);
    assert_eq!(h[0].role, "system");
    assert_eq!(h[0].content, "Be snarky.");
    assert!(is_active_persona(&s, "snarky"));
    assert!(!is_active_persona(&s, "concise"));
}

#[test]
fn edits_restart_only_the_active_persona() {
    let mut s = Settings::default();
    let p = persona("concise", "Be brief.");
    assert!(history_after_edit(&s, "concise", &p).is_none());
    s.active_persona_id = Some("concise".to_string());
    let h = history_after_edit(&s, "concise", &p).unwrap();
    assert_eq!(h[0].content, "Be brief.");
    assert!(history_after_edit(&s, "friendly", &p).is_none());
}

#[test]
fn deleting_the_active_persona_falls_back_to_the_first() {
    let mut s = Settings::default();
    s.active_persona_id = Some("gone".to_string());
    s.port = 9999;
    let h = activate_fallback(
        &mut s,
        vec![persona("concise", "Be brief."), persona("snarky", "Be snarky.")],
    )
    .unwrap();
    assert_eq!(s.active_persona_id.as_deref(), Some("concise"));
    assert_eq!(s.port, 9999);
    assert_eq!(h[0].content, "Be brief.");
    let mut t = Settings::default();
    t.active_persona_id = Some("gone".to_string());
    assert!(activate_fallback(&mut t, Vec::new()).is_none());
    assert_eq!(t.active_persona_id.as_deref(), Some("gone"));
}

#[test]
fn only_builtin_presets_reset() {
    assert_eq!(
        reset_outcome("custom", None).unwrap_err(),
        "custom is not a built-in persona"
    );
    let p = reset_outcome("concise", Some(persona("concise", "x"))).unwrap();
    assert_eq!(p.id, "concise");
}
