//! The chat thread: its messages, and the thread rebuilt from a resumed
//! session's history.

use vstd::prelude::*;
use crate::text::str_eq;

verus! {

broadcast use vstd::string::group_string_axioms;

#[derive(Clone, Copy, Debug, PartialEq, Eq, Structural)]
pub enum ChatRole {
    User,
    Assistant,
}

/// One bubble of the thread.
#[derive(Clone, Debug)]
pub struct ChatMessage {
    pub role: ChatRole,
    pub text: String,
}

/// The role of a history row's wire role: `user` and `assistant` are
/// bubbles; tool and system rows are not.
pub open spec fn role_of(wire: Seq<char>) -> Option<ChatRole> {
    if wire == "user"@ {
        Some(ChatRole::User)
    } else if wire == "assistant"@ {
        Some(ChatRole::Assistant)
    } else {
        None
    }
}

/// The bubbles of `(role, content)` history rows, in order.
pub open spec fn history_bubbles(rows: Seq<(String, String)>) -> Seq<(ChatRole, Seq<char>)>
    decreases rows.len(),
{
    if rows.len() == 0 {
        Seq::empty()
    } else {
        let prev = history_bubbles(rows.drop_last());
        match role_of(rows.last().0@) {
            Some(r) => prev.push((r, rows.last().1@)),
            None => prev,
        }
    }
}

pub open spec fn bubbles(m: Seq<ChatMessage>) -> Seq<(ChatRole, Seq<char>)> {
    m.map_values(|x: ChatMessage| (x.role, x.text@))
}

/// The thread of a resumed session from its `(role, content)` rows.
pub fn messages_from_history(rows: &Vec<(String, String)>) -> (out: Vec<ChatMessage>)
    ensures
        bubbles(out@) == history_bubbles(rows@),
{
    let mut out: Vec<ChatMessage> = Vec::new();
    let mut i: usize = 0;
    while i < rows.len()
        invariant
            i <= rows@.len(),
            bubbles(out@) == history_bubbles(rows@.take(i as int)),
        decreases rows.len() - i,
    {
        assert(rows@.take(i + 1).drop_last() == rows@.take(i as int));
        let role = if str_eq(rows[i].0.as_str(), "user") {
            Some(ChatRole::User)
        } else if str_eq(rows[i].0.as_str(), "assistant") {
            Some(ChatRole::Assistant)
        } else {
            None
        };
        match role {
            Some(r) => {
                let ghost before = out@;
                let m = ChatMessage { role: r, text: rows[i].1.clone() };
                out.push(m);
                assert(bubbles(out@) =~= bubbles(before).push((r, rows@[i as int].1@)));
            },
            None => {},
        }
        i = i + 1;
    }
    assert(rows@.take(rows@.len() as int) == rows@);
    out
}

} // verus!
