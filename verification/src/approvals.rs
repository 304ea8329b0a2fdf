//! Approval decisions and their presentation in the approvals pane.

use vstd::prelude::*;

verus! {

broadcast use vstd::string::group_string_axioms;

/// A decision on an approval request. `Unknown` carries a wire string this
/// client does not recognise (forward compatibility).
#[derive(Clone, Debug)]
pub enum ApprovalDecision {
    Approve,
    Deny,
    Unknown(String),
}

/// Where an approval stands in the store.
#[derive(Clone, Debug)]
pub enum ApprovalState {
    /// Shown, no decision yet.
    Awaiting,
    /// The user decided; the server has not acknowledged yet.
    PendingResponse(ApprovalDecision),
    /// The server recorded this decision.
    Decided(ApprovalDecision),
    /// The request failed with this message.
    Failed(String),
}

/// How far a decision is remembered (the request, the turn, or the session).
#[derive(Clone, Copy, Debug, PartialEq, Eq, Structural)]
pub enum ApprovalScope {
    Request,
    Turn,
    Session,
}

/// Render label for a decision; unrecognised decisions read "unrecognized".
pub fn decision_label(d: &ApprovalDecision) -> (s: &'static str)
    ensures
        s@ == match d {
            ApprovalDecision::Approve => "approve"@,
            ApprovalDecision::Deny => "deny"@,
            ApprovalDecision::Unknown(_) => "unrecognized"@,
        },
{
    match d {
        ApprovalDecision::Approve => "approve",
        ApprovalDecision::Deny => "deny",
        ApprovalDecision::Unknown(_) => "unrecognized",
    }
}

/// For an unrecognised decision, a subtitle showing the raw wire string.
pub fn decision_subtitle(d: &ApprovalDecision) -> (s: Option<String>)
    ensures
        match d {
            ApprovalDecision::Unknown(raw) => s is Some && s.unwrap()@ == "raw: "@ + raw@,
            _ => s is None,
        },
{
    match d {
        ApprovalDecision::Unknown(raw) => {
            let mut out = String::new();
            crate::text::push_str(&mut out, "raw: ");
            crate::text::push_str(&mut out, raw.as_str());
            Some(out)
        },
        _ => None,
    }
}

/// The scope picked at dropdown position `idx` (request, turn, session).
pub fn scope_at(idx: usize) -> (s: Option<ApprovalScope>)
    ensures
        s == if idx == 0 {
            Some(ApprovalScope::Request)
        } else if idx == 1 {
            Some(ApprovalScope::Turn)
        } else if idx == 2 {
            Some(ApprovalScope::Session)
        } else {
            None::<ApprovalScope>
        },
{
    match idx {
        0 => Some(ApprovalScope::Request),
        1 => Some(ApprovalScope::Turn),
        2 => Some(ApprovalScope::Session),
        _ => None,
    }
}

/// The decision a server recorded, from its wire string (`"approve"` /
/// `"deny"`); anything else is `None`.
pub fn parse_recorded_decision(s: &str) -> (d: Option<ApprovalDecision>)
    ensures
        s@ == "approve"@ ==> d matches Some(ApprovalDecision::Approve),
        s@ == "deny"@ ==> d matches Some(ApprovalDecision::Deny),
        s@ != "approve"@ && s@ != "deny"@ ==> d is None,
{
    let v = crate::text::chars_of(s);
    let approve = vec!['a', 'p', 'p', 'r', 'o', 'v', 'e'];
    let deny = vec!['d', 'e', 'n', 'y'];
    proof {
        reveal_strlit("approve");
        reveal_strlit("deny");
        assert(approve@ =~= "approve"@);
        assert(deny@ =~= "deny"@);
    }
    if crate::text::same_chars(&v, &approve) {
        Some(ApprovalDecision::Approve)
    } else if crate::text::same_chars(&v, &deny) {
        Some(ApprovalDecision::Deny)
    } else {
        None
    }
}

/// Whether a decision may still be posted for an approval in this state:
/// not once a response is pending or a decision is recorded.
pub fn can_post_decision(st: &ApprovalState) -> (b: bool)
    ensures
        b == !(st is PendingResponse || st is Decided),
{
    match st {
        ApprovalState::PendingResponse(_) | ApprovalState::Decided(_) => false,
        _ => true,
    }
}

/// JSON-RPC code of a reply to a decision on an approval that is no
/// longer pending (it was already decided).
pub const APPROVAL_NOT_PENDING: i64 = -32011;

/// The server's reply to a posted decision.
pub enum ApprovalReply {
    Accepted,
    /// `code` is the JSON-RPC code (0 for a failure on this side);
    /// `recorded_decision` is the `recorded_decision` string of the error's
    /// data, when it has one.
    Failed { message: String, code: i64, recorded_decision: Option<String> },
}

/// The state a decision click leaves an approval in: pending the server's
/// reply when an agent can carry it, else failed.
pub fn approval_state_on_post(agent_ready: bool, decision: ApprovalDecision) -> (st: ApprovalState)
    ensures
        agent_ready ==> (st matches ApprovalState::PendingResponse(d) && d == decision),
        !agent_ready ==> (st matches ApprovalState::Failed(m) && m@ == "agent not initialized"@),
{
    if agent_ready {
        ApprovalState::PendingResponse(decision)
    } else {
        ApprovalState::Failed(String::from_str("agent not initialized"))
    }
}

pub open spec fn decision_view(d: ApprovalDecision) -> (int, Seq<char>) {
    match d {
        ApprovalDecision::Approve => (0, Seq::empty()),
        ApprovalDecision::Deny => (1, Seq::empty()),
        ApprovalDecision::Unknown(s) => (2, s@),
    }
}

/// The state after the server's reply to decision `sent`: accepted, it is
/// decided; refused as no longer pending, it is decided as the server
/// recorded it (its `recorded_decision` when that reads as a decision,
/// else `sent`); any other failure leaves it failed with the message.
pub fn approval_state_after_reply(sent: ApprovalDecision, reply: ApprovalReply) -> (st: ApprovalState)
    ensures
        match reply {
            ApprovalReply::Accepted => st matches ApprovalState::Decided(d) && decision_view(d)
                == decision_view(sent),
            ApprovalReply::Failed { message, code, recorded_decision } => if code
                == APPROVAL_NOT_PENDING {
                st matches ApprovalState::Decided(d) && decision_view(d) == match recorded_decision {
                    Some(r) => if r@ == "approve"@ {
                        (0, Seq::<char>::empty())
                    } else if r@ == "deny"@ {
                        (1, Seq::<char>::empty())
                    } else {
                        decision_view(sent)
                    },
                    None => decision_view(sent),
                }
            } else {
                st matches ApprovalState::Failed(m) && m == message
            },
        },
{
    match reply {
        ApprovalReply::Accepted => ApprovalState::Decided(sent),
        ApprovalReply::Failed { message, code, recorded_decision } => {
            if code == APPROVAL_NOT_PENDING {
                let recorded = match &recorded_decision {
                    Some(r) => parse_recorded_decision(r.as_str()),
                    None => None,
                };
                match recorded {
                    Some(d) => ApprovalState::Decided(d),
                    None => ApprovalState::Decided(sent),
                }
            } else {
                ApprovalState::Failed(message)
            }
        },
    }
}

/// What an approval card shows for its state.
pub struct CardStatus {
    /// The approve / deny / scope row.
    pub controls_visible: bool,
    /// The decided row.
    pub decided_visible: bool,
    /// Its text (also shown while the response is pending).
    pub decided_text: String,
}

/// ` — <subtitle>` for a decision with a subtitle, else nothing.
pub open spec fn subtitle_suffix(d: ApprovalDecision) -> Seq<char> {
    match d {
        ApprovalDecision::Unknown(raw) => " — "@ + ("raw: "@ + raw@),
        _ => Seq::empty(),
    }
}

pub open spec fn label_of(d: ApprovalDecision) -> Seq<char> {
    match d {
        ApprovalDecision::Approve => "approve"@,
        ApprovalDecision::Deny => "deny"@,
        ApprovalDecision::Unknown(_) => "unrecognized"@,
    }
}

fn push_subtitle(s: &mut String, d: &ApprovalDecision)
    ensures
        final(s)@ == old(s)@ + subtitle_suffix(*d),
{
    match decision_subtitle(d) {
        Some(sub) => {
            crate::text::push_str(s, " — ");
            crate::text::push_str(s, sub.as_str());
        },
        None => {},
    }
}

/// Awaiting: controls only. Pending: controls and `waiting on server…
/// (<label>)`. Decided: `decided: <label>`. Failed: `failed: <message>`.
pub fn card_status(st: &ApprovalState) -> (c: CardStatus)
    ensures
        match *st {
            ApprovalState::Awaiting => c.controls_visible && !c.decided_visible && c.decided_text@
                == Seq::<char>::empty(),
            ApprovalState::PendingResponse(d) => c.controls_visible && !c.decided_visible
                && c.decided_text@ == "waiting on server… ("@ + label_of(d) + ")"@ + subtitle_suffix(
                d,
            ),
            ApprovalState::Decided(d) => !c.controls_visible && c.decided_visible && c.decided_text@
                == "decided: "@ + label_of(d) + subtitle_suffix(d),
            ApprovalState::Failed(m) => !c.controls_visible && c.decided_visible && c.decided_text@
                == "failed: "@ + m@,
        },
{
    match st {
        ApprovalState::Awaiting => CardStatus {
            controls_visible: true,
            decided_visible: false,
            decided_text: String::new(),
        },
        ApprovalState::PendingResponse(d) => {
            let mut t = String::from_str("waiting on server… (");
            crate::text::push_str(&mut t, decision_label(d));
            crate::text::push_str(&mut t, ")");
            push_subtitle(&mut t, d);
            CardStatus { controls_visible: true, decided_visible: false, decided_text: t }
        },
        ApprovalState::Decided(d) => {
            let mut t = String::from_str("decided: ");
            crate::text::push_str(&mut t, decision_label(d));
            push_subtitle(&mut t, d);
            CardStatus { controls_visible: false, decided_visible: true, decided_text: t }
        },
        ApprovalState::Failed(m) => {
            let mut t = String::from_str("failed: ");
            crate::text::push_str(&mut t, m.as_str());
            CardStatus { controls_visible: false, decided_visible: true, decided_text: t }
        },
    }
}

/// What `str::to_uppercase` returns for a string (Unicode upper case).
pub uninterp spec fn unicode_uppercase(s: Seq<char>) -> Seq<char>;

/// Calls `str::to_uppercase`; the result is named by the argument's
/// characters alone.
#[verifier::external_body]
fn to_uppercase(s: &str) -> (r: String)
    ensures
        r@ == unicode_uppercase(s@),
{
    s.to_uppercase()
}

/// The risk badge: the risk in upper case, shown only for a non-empty
/// risk.
pub fn risk_badge(risk: Option<&str>) -> (r: (String, bool))
    ensures
        r.0@ == unicode_uppercase(
            match risk {
                Some(x) => x@,
                None => Seq::<char>::empty(),
            },
        ),
        r.1 == match risk {
            Some(x) => x@.len() > 0,
            None => false,
        },
{
    let x = match risk {
        Some(x) => x,
        None => "",
    };
    proof {
        reveal_strlit("");
        assert(""@ =~= Seq::<char>::empty());
    }
    (to_uppercase(x), !x.is_empty())
}

} // verus!

