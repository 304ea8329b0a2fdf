//! The session sidebar: how a listed session is titled and stamped.

use vstd::prelude::*;
use crate::coding::{char_utf8_len, utf8_len};
use crate::text::{chars_of, push_str};

verus! {

broadcast use vstd::string::group_string_axioms;

/// The characters of `s` that make up its first `n` UTF-8 bytes.
pub open spec fn byte_prefix(s: Seq<char>, n: nat) -> Seq<char> {
    s.take(choose|k: int| 0 <= k <= s.len() && utf8_len(s.take(k)) == n)
}

/// `s` has a character boundary `n` bytes in.
pub open spec fn has_boundary(s: Seq<char>, n: nat) -> bool {
    exists|k: int| 0 <= k <= s.len() && utf8_len(s.take(k)) == n
}

proof fn lemma_prefix_len_step(s: Seq<char>, k: int)
    requires
        0 <= k < s.len(),
    ensures
        utf8_len(s.take(k + 1)) == utf8_len(s.take(k)) + char_utf8_len(s[k]),
        utf8_len(s.take(k + 1)) > utf8_len(s.take(k)),
{
    assert(s.take(k + 1).drop_last() == s.take(k));
}

proof fn lemma_prefix_len_strict(s: Seq<char>, j: int, k: int)
    requires
        0 <= j < k <= s.len(),
    ensures
        utf8_len(s.take(j)) < utf8_len(s.take(k)),
    decreases k - j,
{
    lemma_prefix_len_step(s, k - 1);
    if j < k - 1 {
        lemma_prefix_len_strict(s, j, k - 1);
    }
}

/// `Session <id>` for an id of at most 8 bytes, else `Session ` with the
/// id's first 8 bytes and an ellipsis.
pub open spec fn spec_short_id(id: Seq<char>) -> Seq<char> {
    if utf8_len(id) <= 8 {
        "Session "@ + id
    } else {
        "Session "@ + byte_prefix(id, 8) + "…"@
    }
}

/// The fallback title of a session without one.
pub fn short_id(id: &str) -> (r: String)
    requires
        utf8_len(id@) <= 8 || has_boundary(id@, 8),
    ensures
        r@ == spec_short_id(id@),
{
    let v = chars_of(id);
    let mut r = String::from_str("Session ");
    let mut i: usize = 0;
    let mut bytes: usize = 0;
    while i < v.len() && bytes < 8
        invariant
            v@ == id@,
            i <= v@.len(),
            bytes == utf8_len(v@.take(i as int)),
            bytes <= 12,
            i > 0 ==> utf8_len(v@.take(i - 1)) < 8,
            r@ == "Session "@ + v@.take(i as int),
        decreases v.len() - i,
    {
        proof {
            lemma_prefix_len_step(v@, i as int);
        }
        let c = v[i];
        let w: usize = if (c as u32) < 0x80 {
            1
        } else if (c as u32) < 0x800 {
            2
        } else if (c as u32) < 0x10000 {
            3
        } else {
            4
        };
        r.push(c);
        assert(v@.take(i + 1) == v@.take(i as int).push(c));
        bytes = bytes + w;
        i = i + 1;
    }
    if i == v.len() && bytes <= 8 {
        assert(v@.take(i as int) == v@);
        return r;
    }
    proof {
        assert(utf8_len(v@) > 8) by {
            if i == v.len() {
                assert(v@.take(i as int) == v@);
            } else {
                lemma_prefix_len_strict(v@, i as int, v@.len() as int);
                assert(v@.take(v@.len() as int) == v@);
            }
        }
        let k = choose|k: int| 0 <= k <= v@.len() && utf8_len(v@.take(k)) == 8;
        assert(k == i as int) by {
            if k < i - 1 {
                lemma_prefix_len_strict(v@, k, i - 1);
            } else if k > i {
                lemma_prefix_len_strict(v@, i as int, k);
            }
        }
    }
    push_str(&mut r, "…");
    r
}

/// The title a listed session shows: its own, unless missing or empty.
pub open spec fn spec_session_title(title: Option<Seq<char>>, id: Seq<char>) -> Seq<char> {
    match title {
        Some(t) => if t.len() > 0 { t } else { spec_short_id(id) },
        None => spec_short_id(id),
    }
}

/// A session row of the sidebar.
pub struct SessionRow {
    pub id: String,
    pub profile_id: String,
    pub title: String,
    /// Milliseconds since the Unix epoch.
    pub updated_at_ms: i64,
}

/// Project a listed session: the title falls back to the short id, the
/// profile to `fallback_profile`, and the time of the last message to
/// `now_ms`, the current time that the caller read from the clock.
pub fn project_item(
    session_id: String,
    title: Option<String>,
    last_message_at_ms: Option<i64>,
    profile_id: Option<String>,
    fallback_profile: &str,
    now_ms: i64,
) -> (r: SessionRow)
    requires
        (match title {
            Some(t) => t@.len() > 0,
            None => false,
        }) || utf8_len(session_id@) <= 8 || has_boundary(session_id@, 8),
    ensures
        r.id@ == session_id@,
        r.title@ == spec_session_title(
            match title {
                Some(t) => Some(t@),
                None => None,
            },
            session_id@,
        ),
        r.profile_id@ == match profile_id {
            Some(p) => p@,
            None => fallback_profile@,
        },
        r.updated_at_ms == match last_message_at_ms {
            Some(t) => t,
            None => now_ms,
        },
{
    let t = match title {
        Some(t) => {
            if t.as_str().is_empty() {
                short_id(session_id.as_str())
            } else {
                t
            }
        },
        None => short_id(session_id.as_str()),
    };
    let updated_at_ms = match last_message_at_ms {
        Some(ms) => ms,
        None => now_ms,
    };
    let profile = match profile_id {
        Some(p) => p,
        None => String::from_str(fallback_profile),
    };
    SessionRow { id: session_id, profile_id: profile, title: t, updated_at_ms }
}

} // verus!
