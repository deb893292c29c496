//! The decisions behind the application's commands: which system prompt a
//! conversation starts from, when switching, editing, resetting or deleting
//! a persona restarts the conversation, and the errors those commands report.
//! The application holds the shared state, reads and writes the files, and
//! calls these between those steps.
use vstd::prelude::*;

use crate::config::Settings;
use crate::llm::chat_loop::new_conversation;
use crate::llm::client::{is_plain_message, system_role, ChatMessage};
use crate::persona::{composed_prompt, Persona};
use crate::text::{chars_equal, chars_of, push_str, string_from_chars};

verus! {

/// The system prompt used when there is no persona at all.
pub const FALLBACK_SYSTEM_PROMPT: &'static str =
    "You are Desky, a friendly and concise local desktop assistant.";

/// `h` is a fresh conversation with system prompt `prompt`.
pub open spec fn is_fresh_conversation(h: Seq<ChatMessage>, prompt: Seq<char>) -> bool {
    h.len() == 1 && is_plain_message(h[0], system_role(), prompt)
}

/// The system prompt of a persona.
pub open spec fn prompt_of(p: Persona) -> Seq<char> {
    composed_prompt(p.system_prompt@, p.example_dialogue@)
}

/// Whether `id` is the active persona of `settings`.
pub open spec fn is_active(settings: Settings, id: Seq<char>) -> bool {
    match settings.active_persona_id {
        Some(a) => a@ == id,
        None => false,
    }
}

/// The system prompt a new session starts with: the resolved persona's, or
/// the fallback when there is none.
pub fn initial_system_prompt(resolved: Option<&Persona>) -> (r: String)
    ensures
        r@ == match resolved {
            Some(p) => prompt_of(*p),
            None => FALLBACK_SYSTEM_PROMPT@,
        },
{
    match resolved {
        Some(p) => p.compose_system_prompt(),
        None => FALLBACK_SYSTEM_PROMPT.to_owned(),
    }
}

/// A fresh conversation with `persona`'s system prompt.
pub fn conversation_with(persona: &Persona) -> (r: Vec<ChatMessage>)
    ensures
        is_fresh_conversation(r@, prompt_of(*persona)),
{
    let prompt = persona.compose_system_prompt();
    new_conversation(prompt.as_str())
}

/// Whether persona `id` is the active one.
pub fn is_active_persona(settings: &Settings, id: &str) -> (r: bool)
    ensures
        r == is_active(*settings, id@),
{
    match &settings.active_persona_id {
        Some(a) => {
            let av = chars_of(a.as_str());
            let iv = chars_of(id);
            chars_equal(&av, &iv)
        },
        None => false,
    }
}

/// Refuses to delete the only remaining persona.
pub fn check_can_delete(listed_count: usize) -> (r: Result<(), String>)
    ensures
        r is Ok <==> listed_count > 1,
        r matches Err(e) ==> e@ == "can't delete the only remaining persona"@,
{
    if listed_count <= 1 {
        Err("can't delete the only remaining persona".to_owned())
    } else {
        Ok(())
    }
}

/// After the active persona was deleted: makes the first remaining persona
/// active and returns the conversation to restart with; with none remaining,
/// changes nothing.
pub fn activate_fallback(settings: &mut Settings, remaining: Vec<Persona>) -> (r: Option<
    Vec<ChatMessage>,
>)
    ensures
        remaining@.len() == 0 ==> r is None && *final(settings) == *old(settings),
        remaining@.len() > 0 ==> {
            &&& final(settings).active_persona_id matches Some(a) && a@ == remaining@[0].id@
            &&& final(settings).llama_server_path == old(settings).llama_server_path
            &&& final(settings).model_path == old(settings).model_path
            &&& final(settings).port == old(settings).port
            &&& final(settings).context_size == old(settings).context_size
            &&& r matches Some(h) && is_fresh_conversation(h@, prompt_of(remaining@[0]))
        },
{
    if remaining.len() == 0 {
        return None;
    }
    let first = &remaining[0];
    settings.active_persona_id = Some(first.id.clone());
    Some(conversation_with(first))
}

/// Makes persona `id` active, given what the store found under that id:
/// the conversation restarts with its prompt. An unknown id is an error and
/// leaves the settings as they were.
pub fn activate_persona(settings: &mut Settings, id: String, found: Option<Persona>) -> (r: Result<
    Vec<ChatMessage>,
    String,
>)
    ensures
        match found {
            None => {
                &&& *final(settings) == *old(settings)
                &&& r matches Err(e) && e@ == "persona not found: "@ + id@
            },
            Some(p) => {
                &&& final(settings).active_persona_id == Some(id)
                &&& final(settings).llama_server_path == old(settings).llama_server_path
                &&& final(settings).model_path == old(settings).model_path
                &&& final(settings).port == old(settings).port
                &&& final(settings).context_size == old(settings).context_size
                &&& r matches Ok(h) && is_fresh_conversation(h@, prompt_of(p))
            },
        },
{
    match found {
        None => {
            let mut v = chars_of("persona not found: ");
            push_str(&mut v, id.as_str());
            Err(string_from_chars(&v))
        },
        Some(p) => {
            settings.active_persona_id = Some(id);
            Ok(conversation_with(&p))
        },
    }
}

/// After persona `id` was edited or reset to `persona`: the conversation to
/// restart with when that persona is the active one, else none.
pub fn history_after_edit(settings: &Settings, id: &str, persona: &Persona) -> (r: Option<
    Vec<ChatMessage>,
>)
    ensures
        r is Some <==> is_active(*settings, id@),
        r matches Some(h) ==> is_fresh_conversation(h@, prompt_of(*persona)),
{
    if is_active_persona(settings, id) {
        Some(conversation_with(persona))
    } else {
        None
    }
}

/// The outcome of resetting persona `id` to its bundled preset, given what
/// the store did: only built-in presets can be reset.
pub fn reset_outcome(id: &str, reset: Option<Persona>) -> (r: Result<Persona, String>)
    ensures
        match reset {
            Some(p) => r == Ok::<Persona, String>(p),
            None => r matches Err(e) && e@ == id@ + " is not a built-in persona"@,
        },
{
    match reset {
        Some(p) => Ok(p),
        None => {
            let mut v = chars_of(id);
            push_str(&mut v, " is not a built-in persona");
            Err(string_from_chars(&v))
        },
    }
}

} // verus!
