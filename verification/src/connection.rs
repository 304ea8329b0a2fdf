//! The server agent's small decisions: session keys, what a connection
//! state change means for the store and the toasts, and the text of RPC
//! failures.

use vstd::prelude::*;
use crate::notify::{format_i64, int_decimal};
use crate::text::{decimal, push_decimal, push_str, repeat_char};

verus! {

broadcast use vstd::string::group_string_axioms;

// ---------------------------------------------------------------------------
// Session keys
// ---------------------------------------------------------------------------

pub open spec fn hex_digit(d: nat) -> char {
    if d < 10 {
        crate::text::digit_char(d)
    } else if d == 10 {
        'a'
    } else if d == 11 {
        'b'
    } else if d == 12 {
        'c'
    } else if d == 13 {
        'd'
    } else if d == 14 {
        'e'
    } else {
        'f'
    }
}

/// Lower-case hexadecimal digits of `n`, as `{:x}` formats it.
pub open spec fn hex(n: nat) -> Seq<char>
    decreases n,
{
    if n < 16 {
        seq![hex_digit(n)]
    } else {
        hex(n / 16).push(hex_digit(n % 16))
    }
}

/// `{:08x}`: hexadecimal, zero-padded to at least 8 digits.
pub open spec fn hex8(n: nat) -> Seq<char> {
    let h = hex(n);
    if h.len() < 8 {
        repeat_char('0', (8 - h.len()) as nat) + h
    } else {
        h
    }
}

fn hex_char(d: u64) -> (c: char)
    requires
        d < 16,
    ensures
        c == hex_digit(d as nat),
{
    if d == 0 {
        '0'
    } else if d == 1 {
        '1'
    } else if d == 2 {
        '2'
    } else if d == 3 {
        '3'
    } else if d == 4 {
        '4'
    } else if d == 5 {
        '5'
    } else if d == 6 {
        '6'
    } else if d == 7 {
        '7'
    } else if d == 8 {
        '8'
    } else if d == 9 {
        '9'
    } else if d == 10 {
        'a'
    } else if d == 11 {
        'b'
    } else if d == 12 {
        'c'
    } else if d == 13 {
        'd'
    } else if d == 14 {
        'e'
    } else {
        'f'
    }
}

fn hex_chars(n: u64) -> (v: Vec<char>)
    ensures
        v@ == hex(n as nat),
    decreases n,
{
    let mut v = if n >= 16 {
        hex_chars(n / 16)
    } else {
        Vec::new()
    };
    v.push(hex_char(n % 16));
    proof {
        if n < 16 {
            assert(v@ =~= seq![hex_digit(n as nat)]);
        }
    }
    v
}

fn push_hex8(out: &mut String, n: u64)
    ensures
        final(out)@ == old(out)@ + hex8(n as nat),
{
    let v = hex_chars(n);
    let mut pad: usize = 0;
    let ghost start = out@;
    if v.len() < 8 {
        while pad < 8 - v.len()
            invariant
                v@ == hex(n as nat),
                v@.len() < 8,
                pad <= 8 - v@.len(),
                out@ == start + repeat_char('0', pad as nat),
            decreases 8 - v.len() - pad,
        {
            out.push('0');
            assert(repeat_char('0', (pad + 1) as nat) =~= repeat_char('0', pad as nat).push('0'));
            pad = pad + 1;
        }
    }
    let ghost mid = out@;
    let mut i: usize = 0;
    while i < v.len()
        invariant
            i <= v@.len(),
            out@ == mid + v@.take(i as int),
        decreases v.len() - i,
    {
        out.push(v[i]);
        assert(v@.take(i + 1) == v@.take(i as int).push(v@[i as int]));
        i = i + 1;
    }
    assert(v@.take(v@.len() as int) == v@);
    proof {
        if v@.len() >= 8 {
            assert(mid == start);
        }
    }
}

/// The key of a session opened by this client: over the embedded kernel
/// `<profile>:api:<nonce>-<id>`, which names the profile the kernel runs
/// the turn for; over the network `octos-app:<nonce>-<id>`. Both numbers
/// are `{:08x}`; the id is its low 32 bits.
pub fn make_session_key(stdio: bool, profile: &str, boot_nonce: u64, session_id: u64) -> (k: String)
    ensures
        k@ == if stdio {
            profile@ + ":api:"@ + hex8(boot_nonce as nat) + "-"@ + hex8((session_id % 0x1_0000_0000) as nat)
        } else {
            "octos-app:"@ + hex8(boot_nonce as nat) + "-"@ + hex8((session_id % 0x1_0000_0000) as nat)
        },
{
    let mut k = String::new();
    if stdio {
        push_str(&mut k, profile);
        push_str(&mut k, ":api:");
    } else {
        push_str(&mut k, "octos-app:");
    }
    push_hex8(&mut k, boot_nonce);
    push_str(&mut k, "-");
    push_hex8(&mut k, session_id % 0x1_0000_0000);
    k
}

// ---------------------------------------------------------------------------
// Connection state
// ---------------------------------------------------------------------------

/// The transport's connection state.
#[derive(Clone, Copy, Debug, PartialEq, Eq, Structural)]
pub enum ConnectionState {
    Idle,
    Dialing,
    Handshaking,
    Live,
    ReplayApplying,
    Reconnecting { attempt: u32 },
    Failed,
}

/// The store's connection event.
#[derive(Clone, Copy, Debug, PartialEq, Eq, Structural)]
pub enum ConnectionEvent {
    Connected,
    Reconnecting,
    Offline,
}

/// The top bar's connection indicator: its label and the dot's colour.
pub open spec fn spec_indicator(ev: ConnectionEvent) -> (Seq<char>, Seq<char>) {
    match ev {
        ConnectionEvent::Connected => ("Live"@, "#x4FCB6E"@),
        ConnectionEvent::Reconnecting => ("Reconnecting"@, "#xF6BE63"@),
        ConnectionEvent::Offline => ("Offline"@, "#xE36363"@),
    }
}

impl ConnectionEvent {
    /// The label and dot colour the top bar shows for this state.
    pub fn indicator(self) -> (r: (&'static str, &'static str))
        ensures
            (r.0@, r.1@) == spec_indicator(self),
    {
        match self {
            ConnectionEvent::Connected => ("Live", "#x4FCB6E"),
            ConnectionEvent::Reconnecting => ("Reconnecting", "#xF6BE63"),
            ConnectionEvent::Offline => ("Offline", "#xE36363"),
        }
    }
}

#[derive(Clone, Copy, Debug, PartialEq, Eq, Structural)]
pub enum ToastKind {
    ReconnectSuccess,
    Reconnecting,
    Error,
}

/// A toast for the user.
pub struct Toast {
    pub kind: ToastKind,
    pub text: String,
}

pub open spec fn spec_connection_event(next: ConnectionState) -> ConnectionEvent {
    match next {
        ConnectionState::Live | ConnectionState::ReplayApplying => ConnectionEvent::Connected,
        ConnectionState::Reconnecting { .. } => ConnectionEvent::Reconnecting,
        _ => ConnectionEvent::Offline,
    }
}

/// The toast of a state change, by kind and text.
pub open spec fn spec_toast(prev: ConnectionState, next: ConnectionState) -> Option<(ToastKind, Seq<char>)> {
    match (prev, next) {
        (ConnectionState::Reconnecting { .. }, ConnectionState::Live) | (
            ConnectionState::ReplayApplying,
            ConnectionState::Live,
        ) => Some((ToastKind::ReconnectSuccess, "Reconnected"@)),
        (_, ConnectionState::Reconnecting { attempt }) => Some(
            (ToastKind::Reconnecting, "Reconnecting (attempt "@ + decimal(attempt as nat) + ")"@),
        ),
        (_, ConnectionState::Failed) => Some((ToastKind::Error, "Connection failed; restart to retry"@)),
        (ConnectionState::Dialing, ConnectionState::Live) | (
            ConnectionState::Handshaking,
            ConnectionState::Live,
        ) => Some((ToastKind::ReconnectSuccess, "Connected"@)),
        _ => None,
    }
}

/// What a connection state change means: nothing when the state did not
/// change; otherwise the store's connection event and, for the arcs the
/// user should see, a toast.
pub fn connection_change(prev: ConnectionState, next: ConnectionState) -> (r: Option<(ConnectionEvent, Option<Toast>)>)
    ensures
        prev == next ==> r is None,
        prev != next ==> (r matches Some((ev, t)) && ev == spec_connection_event(next) && match t {
            Some(t) => spec_toast(prev, next) == Some((t.kind, t.text@)),
            None => spec_toast(prev, next) is None,
        }),
{
    if prev == next {
        return None;
    }
    let ev = match next {
        ConnectionState::Live | ConnectionState::ReplayApplying => ConnectionEvent::Connected,
        ConnectionState::Reconnecting { .. } => ConnectionEvent::Reconnecting,
        _ => ConnectionEvent::Offline,
    };
    let toast = match (prev, next) {
        (ConnectionState::Reconnecting { .. }, ConnectionState::Live) | (
            ConnectionState::ReplayApplying,
            ConnectionState::Live,
        ) => Some(Toast { kind: ToastKind::ReconnectSuccess, text: String::from_str("Reconnected") }),
        (_, ConnectionState::Reconnecting { attempt }) => {
            let mut t = String::from_str("Reconnecting (attempt ");
            push_decimal(&mut t, attempt as u64);
            push_str(&mut t, ")");
            Some(Toast { kind: ToastKind::Reconnecting, text: t })
        },
        (_, ConnectionState::Failed) => Some(
            Toast { kind: ToastKind::Error, text: String::from_str("Connection failed; restart to retry") },
        ),
        (ConnectionState::Dialing, ConnectionState::Live) | (
            ConnectionState::Handshaking,
            ConnectionState::Live,
        ) => Some(Toast { kind: ToastKind::ReconnectSuccess, text: String::from_str("Connected") }),
        _ => None,
    };
    Some((ev, toast))
}

// ---------------------------------------------------------------------------
// RPC failures
// ---------------------------------------------------------------------------

/// An RPC error as a task-output failure: `<message> (<code>)`.
pub fn rpc_error_text(message: &str, code: i64) -> (s: String)
    ensures
        s@ == message@ + " ("@ + int_decimal(code as int) + ")"@,
{
    let mut s = String::from_str(message);
    push_str(&mut s, " (");
    let c = format_i64(code);
    push_str(&mut s, c.as_str());
    push_str(&mut s, ")");
    s
}

/// An RPC error of `method`: `<method>: <message> (<code>)`.
pub fn rpc_method_error_text(method: &str, message: &str, code: i64) -> (s: String)
    ensures
        s@ == method@ + ": "@ + message@ + " ("@ + int_decimal(code as int) + ")"@,
{
    let mut s = String::from_str(method);
    push_str(&mut s, ": ");
    let rest = rpc_error_text(message, code);
    push_str(&mut s, rest.as_str());
    s
}

/// The failure of a request the transport could not take.
pub fn transport_unavailable_text() -> (s: String)
    ensures
        s@ == "transport unavailable"@,
{
    String::from_str("transport unavailable")
}

/// The failure of a request whose reply never came back.
pub fn reply_dropped_text() -> (s: String)
    ensures
        s@ == "transport dropped the reply channel"@,
{
    String::from_str("transport dropped the reply channel")
}

} // verus!
