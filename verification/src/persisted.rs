//! Persisted-message events from the server: a stored assistant reply
//! replaces the streamed text of the prompt it answers.

use vstd::prelude::*;
use vstd::std_specs::hash::group_hash_axioms;
use std::collections::HashMap;
use crate::text::str_eq;

verus! {

broadcast use vstd::string::group_string_axioms, group_hash_axioms;

/// A turn of the conversation, as the server numbers it.
pub type TurnId = u64;

/// A prompt of the chat surface.
pub type PromptId = u64;

/// The chat surface's event: the final text of a prompt's reply.
#[derive(Clone, Debug)]
pub struct TextAuthoritative {
    pub prompt_id: PromptId,
    pub text: String,
}

/// The events a persisted message yields: one authoritative text when it
/// is an assistant message with content, of a turn that belongs to a known
/// prompt; none otherwise.
pub fn translate_persisted_message(
    prompt_ids: &HashMap<TurnId, PromptId>,
    role: &str,
    turn_id: Option<TurnId>,
    content: Option<String>,
) -> (events: Vec<TextAuthoritative>)
    ensures
        role@ == "assistant"@ && turn_id is Some && content is Some && prompt_ids@.contains_key(
            turn_id->0,
        ) ==> {
            &&& events@.len() == 1
            &&& events@[0].prompt_id == prompt_ids@[turn_id->0]
            &&& events@[0].text@ == content->0@
        },
        !(role@ == "assistant"@ && turn_id is Some && content is Some && prompt_ids@.contains_key(
            turn_id->0,
        )) ==> events@.len() == 0,
{
    if !str_eq(role, "assistant") {
        return Vec::new();
    }
    let (turn, text) = match (turn_id, content) {
        (Some(t), Some(c)) => (t, c),
        _ => return Vec::new(),
    };
    match prompt_ids.get(&turn) {
        Some(p) => {
            let mut v = Vec::new();
            v.push(TextAuthoritative { prompt_id: *p, text });
            v
        },
        None => Vec::new(),
    }
}

} // verus!
