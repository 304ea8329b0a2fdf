//! Turn bookkeeping of the server agent: which prompt of the chat surface
//! each server turn answers, and the chat events a server notification
//! becomes.

use vstd::prelude::*;
use vstd::std_specs::hash::group_hash_axioms;
use std::collections::HashMap;
use std::collections::HashSet;
use crate::apps::SessionId;
use crate::connection::rpc_method_error_text;
use crate::notify::int_decimal;
use crate::persisted::{translate_persisted_message, PromptId, TurnId};
use crate::text::{push_str, str_eq};

verus! {

broadcast use vstd::string::group_string_axioms, group_hash_axioms;

/// A server notification, as far as the chat surface reads it.
pub enum Notification {
    MessageDelta { turn_id: TurnId, text: String },
    ReasoningDelta { turn_id: TurnId, text: String },
    /// `arguments` is the call's arguments serialized as JSON, if any.
    ToolStarted { turn_id: TurnId, tool_call_id: String, tool_name: String, arguments: Option<String> },
    MessagePersisted { turn_id: Option<TurnId>, role: String, content: Option<String> },
    TurnCompleted { turn_id: TurnId },
    TurnError { turn_id: TurnId, code: String, message: String },
    /// Everything the store folds in without a chat event.
    Other,
}

/// An event of the chat surface.
pub enum AgentEvent {
    TextDelta { prompt_id: PromptId, text: String },
    ThinkingDelta { prompt_id: PromptId, text: String },
    ToolRequest { prompt_id: PromptId, tool_use_id: String, tool_name: String, tool_input: String },
    TextAuthoritative { prompt_id: PromptId, text: String },
    TurnComplete { prompt_id: PromptId, stop_reason: StopReason },
    PromptError { prompt_id: PromptId, error: String },
    /// A session the chat surface opened is ready on the server.
    SessionReady { session_id: SessionId },
    /// Opening a session failed.
    SessionError { session_id: SessionId, error: String },
}

/// Why a turn ended. The server reports only the normal end of a turn.
#[derive(Clone, Copy, Debug, PartialEq, Eq, Structural)]
pub enum StopReason {
    EndTurn,
}

/// Prompt <-> turn correspondence, and the session that owns each prompt.
pub struct TurnTracker {
    /// Prompt -> its server turn.
    pub turn_ids: HashMap<PromptId, TurnId>,
    /// Server turn -> the prompt it answers.
    pub prompt_ids: HashMap<TurnId, PromptId>,
    /// Prompt -> key of the session it was sent on.
    pub prompt_sessions: HashMap<PromptId, String>,
}

impl TurnTracker {
    pub fn new() -> (t: Self)
        ensures
            t.turn_ids@ == Map::<PromptId, TurnId>::empty(),
            t.prompt_ids@ == Map::<TurnId, PromptId>::empty(),
            t.prompt_sessions@ == Map::<PromptId, String>::empty(),
    {
        TurnTracker { turn_ids: HashMap::new(), prompt_ids: HashMap::new(), prompt_sessions: HashMap::new() }
    }

    /// Record a prompt sent as `turn_id`; `session_key` is the key of its
    /// session when the session is known. Returns whether the turn is to be
    /// started on the server (only for a known session).
    pub fn start_turn(&mut self, prompt_id: PromptId, turn_id: TurnId, session_key: Option<String>) -> (start: bool)
        ensures
            final(self).turn_ids@ == old(self).turn_ids@.insert(prompt_id, turn_id),
            final(self).prompt_ids@ == old(self).prompt_ids@.insert(turn_id, prompt_id),
            final(self).prompt_sessions@ == match session_key {
                Some(k) => old(self).prompt_sessions@.insert(prompt_id, k),
                None => old(self).prompt_sessions@,
            },
            start == session_key is Some,
    {
        self.turn_ids.insert(prompt_id, turn_id);
        self.prompt_ids.insert(turn_id, prompt_id);
        match session_key {
            Some(k) => {
                self.prompt_sessions.insert(prompt_id, k);
                true
            },
            None => false,
        }
    }

    /// Where to interrupt a prompt: its session's key and its turn, when
    /// both are known.
    pub fn cancel_target(&self, prompt_id: PromptId) -> (r: Option<(String, TurnId)>)
        ensures
            match r {
                Some((k, t)) => self.turn_ids@.contains_key(prompt_id) && self.prompt_sessions@.contains_key(
                    prompt_id,
                ) && t == self.turn_ids@[prompt_id] && k == self.prompt_sessions@[prompt_id],
                None => !self.turn_ids@.contains_key(prompt_id) || !self.prompt_sessions@.contains_key(
                    prompt_id,
                ),
            },
    {
        let turn = match self.turn_ids.get(&prompt_id) {
            Some(t) => *t,
            None => return None,
        };
        match self.prompt_sessions.get(&prompt_id) {
            Some(k) => Some((k.clone(), turn)),
            None => None,
        }
    }

    /// Forget a finished turn and its prompt; returns the prompt.
    fn finish_turn(&mut self, turn_id: TurnId) -> (r: Option<PromptId>)
        ensures
            match r {
                Some(p) => {
                    &&& old(self).prompt_ids@.contains_key(turn_id)
                    &&& p == old(self).prompt_ids@[turn_id]
                    &&& final(self).prompt_ids@ == old(self).prompt_ids@.remove(turn_id)
                    &&& final(self).turn_ids@ == old(self).turn_ids@.remove(p)
                    &&& final(self).prompt_sessions@ == old(self).prompt_sessions@.remove(p)
                },
                None => {
                    &&& !old(self).prompt_ids@.contains_key(turn_id)
                    &&& final(self).prompt_ids@ == old(self).prompt_ids@
                    &&& final(self).turn_ids@ == old(self).turn_ids@
                    &&& final(self).prompt_sessions@ == old(self).prompt_sessions@
                },
            },
    {
        match self.prompt_ids.remove(&turn_id) {
            Some(p) => {
                self.turn_ids.remove(&p);
                self.prompt_sessions.remove(&p);
                Some(p)
            },
            None => None,
        }
    }

    /// The chat event a notification becomes, if any. Deltas, tool calls
    /// and persisted replies of a known turn go to its prompt; a completed
    /// or failed turn ends its prompt and is forgotten. Notifications of
    /// unknown turns, and all others, yield nothing and change nothing.
    pub fn translate_notification(&mut self, n: Notification) -> (ev: Option<AgentEvent>)
        ensures
            match n {
                Notification::TurnCompleted { turn_id } | Notification::TurnError { turn_id, .. } => {
                    &&& final(self).prompt_ids@ == old(self).prompt_ids@.remove(turn_id)
                    &&& old(self).prompt_ids@.contains_key(turn_id) ==> {
                        let p = old(self).prompt_ids@[turn_id];
                        &&& final(self).turn_ids@ == old(self).turn_ids@.remove(p)
                        &&& final(self).prompt_sessions@ == old(self).prompt_sessions@.remove(p)
                    }
                    &&& !old(self).prompt_ids@.contains_key(turn_id) ==> {
                        &&& final(self).turn_ids@ == old(self).turn_ids@
                        &&& final(self).prompt_sessions@ == old(self).prompt_sessions@
                    }
                },
                _ => {
                    &&& final(self).prompt_ids@ == old(self).prompt_ids@
                    &&& final(self).turn_ids@ == old(self).turn_ids@
                    &&& final(self).prompt_sessions@ == old(self).prompt_sessions@
                },
            },
            match n {
                Notification::MessageDelta { turn_id, text } => if old(self).prompt_ids@.contains_key(
                    turn_id,
                ) {
                    ev matches Some(AgentEvent::TextDelta { prompt_id, text: t }) && prompt_id
                        == old(self).prompt_ids@[turn_id] && t == text
                } else {
                    ev is None
                },
                Notification::ReasoningDelta { turn_id, text } => if old(self).prompt_ids@.contains_key(
                    turn_id,
                ) {
                    ev matches Some(AgentEvent::ThinkingDelta { prompt_id, text: t }) && prompt_id
                        == old(self).prompt_ids@[turn_id] && t == text
                } else {
                    ev is None
                },
                Notification::ToolStarted { turn_id, tool_call_id, tool_name, arguments } => if old(
                    self,
                ).prompt_ids@.contains_key(turn_id) {
                    ev matches Some(
                        AgentEvent::ToolRequest { prompt_id, tool_use_id, tool_name: name, tool_input },
                    ) && prompt_id == old(self).prompt_ids@[turn_id] && tool_use_id == tool_call_id
                        && name == tool_name && tool_input@ == match arguments {
                        Some(a) => a@,
                        None => "{}"@,
                    }
                } else {
                    ev is None
                },
                Notification::MessagePersisted { turn_id, role, content } => if role@ == "assistant"@
                    && turn_id is Some && content is Some && old(self).prompt_ids@.contains_key(
                    turn_id->0,
                ) {
                    ev matches Some(AgentEvent::TextAuthoritative { prompt_id, text }) && prompt_id
                        == old(self).prompt_ids@[turn_id->0] && text@ == content->0@
                } else {
                    ev is None
                },
                Notification::TurnCompleted { turn_id } => if old(self).prompt_ids@.contains_key(
                    turn_id,
                ) {
                    ev matches Some(AgentEvent::TurnComplete { prompt_id, stop_reason }) && prompt_id
                        == old(self).prompt_ids@[turn_id] && stop_reason == StopReason::EndTurn
                } else {
                    ev is None
                },
                Notification::TurnError { turn_id, code, message } => if old(self).prompt_ids@.contains_key(
                    turn_id,
                ) {
                    ev matches Some(AgentEvent::PromptError { prompt_id, error }) && prompt_id == old(
                        self,
                    ).prompt_ids@[turn_id] && error@ == code@ + ": "@ + message@
                } else {
                    ev is None
                },
                Notification::Other => ev is None,
            },
    {
        match n {
            Notification::MessageDelta { turn_id, text } => match self.prompt_ids.get(&turn_id) {
                Some(p) => Some(AgentEvent::TextDelta { prompt_id: *p, text }),
                None => None,
            },
            Notification::ReasoningDelta { turn_id, text } => match self.prompt_ids.get(&turn_id) {
                Some(p) => Some(AgentEvent::ThinkingDelta { prompt_id: *p, text }),
                None => None,
            },
            Notification::ToolStarted { turn_id, tool_call_id, tool_name, arguments } => {
                match self.prompt_ids.get(&turn_id) {
                    Some(p) => {
                        let input = match arguments {
                            Some(a) => a,
                            None => String::from_str("{}"),
                        };
                        Some(
                            AgentEvent::ToolRequest {
                                prompt_id: *p,
                                tool_use_id: tool_call_id,
                                tool_name,
                                tool_input: input,
                            },
                        )
                    },
                    None => None,
                }
            },
            Notification::MessagePersisted { turn_id, role, content } => {
                let mut evs = translate_persisted_message(&self.prompt_ids, role.as_str(), turn_id, content);
                match evs.pop() {
                    Some(e) => Some(AgentEvent::TextAuthoritative { prompt_id: e.prompt_id, text: e.text }),
                    None => None,
                }
            },
            Notification::TurnCompleted { turn_id } => match self.finish_turn(turn_id) {
                Some(p) => Some(AgentEvent::TurnComplete { prompt_id: p, stop_reason: StopReason::EndTurn }),
                None => None,
            },
            Notification::TurnError { turn_id, code, message } => match self.finish_turn(turn_id) {
                Some(p) => {
                    let mut error = String::new();
                    push_str(&mut error, code.as_str());
                    push_str(&mut error, ": ");
                    push_str(&mut error, message.as_str());
                    Some(AgentEvent::PromptError { prompt_id: p, error })
                },
                None => None,
            },
            Notification::Other => None,
        }
    }
}

// ---------------------------------------------------------------------------
// RPC replies
// ---------------------------------------------------------------------------

/// A `session/open` reply for the session the chat surface knows as
/// `mapped` (`None` when the opened key maps to no session of the
/// surface): a mapped session becomes ready and is reported so; an
/// unmapped one is ignored.
pub fn session_open_event(mapped: Option<SessionId>, ready: &mut HashSet<SessionId>) -> (ev: Option<AgentEvent>)
    ensures
        match mapped {
            Some(sid) => {
                &&& ev matches Some(AgentEvent::SessionReady { session_id }) && session_id == sid
                &&& final(ready)@ == old(ready)@.insert(sid)
            },
            None => ev is None && final(ready)@ == old(ready)@,
        },
{
    match mapped {
        Some(sid) => {
            ready.insert(sid);
            Some(AgentEvent::SessionReady { session_id: sid })
        },
        None => None,
    }
}

/// An RPC error of `method`, and where it goes. The error text is
/// `<method>: <message> (<code>)`. A failed `session/open` is charged to
/// `open_session`, a session the surface is opening; any other error (or a
/// `session/open` with no such session) to `inflight_prompt`, a prompt in
/// flight. The transport does not say which session or prompt an error
/// belongs to, so the caller names one of each where it has any; with
/// neither, no event is raised and the text is returned for the log.
pub fn rpc_error_event(
    method: &str,
    message: &str,
    code: i64,
    open_session: Option<SessionId>,
    inflight_prompt: Option<PromptId>,
) -> (r: (Option<AgentEvent>, String))
    ensures
        r.1@ == method@ + ": "@ + message@ + " ("@ + int_decimal(code as int) + ")"@,
        if method@ == "session/open"@ && open_session is Some {
            r.0 matches Some(AgentEvent::SessionError { session_id, error }) && session_id
                == open_session->0 && error@ == r.1@
        } else if inflight_prompt is Some {
            r.0 matches Some(AgentEvent::PromptError { prompt_id, error }) && prompt_id
                == inflight_prompt->0 && error@ == r.1@
        } else {
            r.0 is None
        },
{
    let msg = rpc_method_error_text(method, message, code);
    if str_eq(method, "session/open") {
        if let Some(sid) = open_session {
            return (Some(AgentEvent::SessionError { session_id: sid, error: msg.clone() }), msg);
        }
    }
    match inflight_prompt {
        Some(pid) => (Some(AgentEvent::PromptError { prompt_id: pid, error: msg.clone() }), msg),
        None => (None, msg),
    }
}

} // verus!
