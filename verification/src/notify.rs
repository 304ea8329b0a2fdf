//! Button presses inside a live card: the tagged event id, the JSON
//! payload, and the counter/value update they make to the card's state.

use vstd::prelude::*;
use crate::cards::{digit_val, digits_value, CardState};
use crate::text::{
    before_char, chars_of, contains, decimal, find_in, is_ascii_digit, push_decimal, starts_with,
    string_of,
};

verus! {

broadcast use vstd::string::group_string_axioms;

// ---------------------------------------------------------------------------
// Integer text, as `str::parse` and `to_string` have it
// ---------------------------------------------------------------------------

pub open spec fn all_digits(s: Seq<char>) -> bool {
    forall|i: int| 0 <= i < s.len() ==> is_ascii_digit(#[trigger] s[i])
}

/// `str::parse::<usize>`: an optional `+`, then one or more ASCII digits,
/// the value fitting `usize`.
pub open spec fn spec_parse_usize(s: Seq<char>) -> Option<usize> {
    let d = if s.len() > 0 && s[0] == '+' { s.drop_first() } else { s };
    if d.len() > 0 && all_digits(d) && digits_value(d) <= usize::MAX {
        Some(digits_value(d) as usize)
    } else {
        None
    }
}

/// `str::parse::<i64>`: an optional sign, then one or more ASCII digits,
/// the value fitting `i64`.
pub open spec fn spec_parse_i64(s: Seq<char>) -> Option<i64> {
    if s.len() > 0 && s[0] == '-' {
        let d = s.drop_first();
        if d.len() > 0 && all_digits(d) && digits_value(d) <= 0x8000_0000_0000_0000 {
            Some((0 - digits_value(d)) as i64)
        } else {
            None
        }
    } else {
        let d = if s.len() > 0 && s[0] == '+' { s.drop_first() } else { s };
        if d.len() > 0 && all_digits(d) && digits_value(d) <= i64::MAX {
            Some(digits_value(d) as i64)
        } else {
            None
        }
    }
}

/// `to_string` of a signed integer.
pub open spec fn int_decimal(n: int) -> Seq<char> {
    if n < 0 {
        seq!['-'] + decimal((0 - n) as nat)
    } else {
        decimal(n as nat)
    }
}

/// The value of the digits `v[lo..hi]` when it is at most `bound`.
fn digits_at_most(v: &Vec<char>, lo: usize, hi: usize, bound: u64) -> (r: Option<u64>)
    requires
        lo <= hi <= v.len(),
    ensures
        match r {
            Some(x) => all_digits(v@.subrange(lo as int, hi as int)) && x == digits_value(
                v@.subrange(lo as int, hi as int),
            ) && x <= bound,
            None => !all_digits(v@.subrange(lo as int, hi as int)) || digits_value(
                v@.subrange(lo as int, hi as int),
            ) > bound,
        },
{
    let mut acc: u128 = 0;
    let mut k = lo;
    while k < hi
        invariant
            lo <= k <= hi <= v.len(),
            all_digits(v@.subrange(lo as int, k as int)),
            acc == digits_value(v@.subrange(lo as int, k as int)),
            acc <= bound,
        decreases hi - k,
    {
        let c = v[k];
        let ghost s = v@.subrange(lo as int, k + 1);
        assert(s.drop_last() == v@.subrange(lo as int, k as int));
        assert(s.last() == c);
        if !('0' <= c && c <= '9') {
            assert(!all_digits(v@.subrange(lo as int, hi as int))) by {
                assert(v@.subrange(lo as int, hi as int)[k - lo] == c);
            }
            return None;
        }
        let d = ((c as u32) - 48) as u128;
        acc = acc * 10 + d;
        if acc > bound as u128 {
            proof {
                lemma_digits_value_prefix_mono(v@.subrange(lo as int, hi as int), k + 1 - lo);
                assert(v@.subrange(lo as int, hi as int).take(k + 1 - lo) == s);
            }
            return None;
        }
        k = k + 1;
    }
    Some(acc as u64)
}

/// A prefix of a digit string is worth no more than the whole string.
proof fn lemma_digits_value_prefix_mono(s: Seq<char>, k: int)
    requires
        0 <= k <= s.len(),
    ensures
        all_digits(s) ==> digits_value(s.take(k)) <= digits_value(s),
    decreases s.len() - k,
{
    if k < s.len() && all_digits(s) {
        lemma_digits_value_prefix_mono(s, k + 1);
        assert(s.take(k + 1).drop_last() == s.take(k));
        assert(all_digits(s.take(k + 1)));
    }
    if k == s.len() {
        assert(s.take(k) == s);
    }
}

/// `str::parse::<usize>`.
pub fn parse_usize(s: &str) -> (r: Option<usize>)
    ensures
        r == spec_parse_usize(s@),
{
    let v = chars_of(s);
    let n = v.len();
    let lo: usize = if n > 0 && v[0] == '+' { 1 } else { 0 };
    assert(v@.subrange(lo as int, n as int) == if n > 0 && v@[0] == '+' { v@.drop_first() } else { v@ });
    if lo == n {
        return None;
    }
    match digits_at_most(&v, lo, n, usize::MAX as u64) {
        Some(x) => Some(x as usize),
        None => None,
    }
}

/// `str::parse::<i64>`.
pub fn parse_i64(s: &str) -> (r: Option<i64>)
    ensures
        r == spec_parse_i64(s@),
{
    let v = chars_of(s);
    let n = v.len();
    if n > 0 && v[0] == '-' {
        assert(v@.subrange(1, n as int) == v@.drop_first());
        if n == 1 {
            return None;
        }
        match digits_at_most(&v, 1, n, 0x8000_0000_0000_0000) {
            Some(x) => if x == 0x8000_0000_0000_0000 {
                Some(i64::MIN)
            } else {
                Some(-(x as i64))
            },
            None => None,
        }
    } else {
        let lo: usize = if n > 0 && v[0] == '+' { 1 } else { 0 };
        assert(v@.subrange(lo as int, n as int) == if n > 0 && v@[0] == '+' { v@.drop_first() } else { v@ });
        if lo == n {
            return None;
        }
        match digits_at_most(&v, lo, n, 0x7fff_ffff_ffff_ffff) {
            Some(x) => Some(x as i64),
            None => None,
        }
    }
}

/// `n.to_string()`.
pub fn format_i64(n: i64) -> (s: String)
    ensures
        s@ == int_decimal(n as int),
{
    let mut s = String::new();
    if n < 0 {
        s.push('-');
        let m: u64 = if n == i64::MIN { 0x8000_0000_0000_0000 } else { (-n) as u64 };
        push_decimal(&mut s, m);
    } else {
        push_decimal(&mut s, n as u64);
    }
    s
}

// ---------------------------------------------------------------------------
// Event ids and payloads
// ---------------------------------------------------------------------------

/// What `str::to_lowercase` returns for a string (Unicode lower case).
pub uninterp spec fn unicode_lowercase(s: Seq<char>) -> Seq<char>;

/// Calls `str::to_lowercase`; the result is named by the argument's
/// characters alone.
#[verifier::external_body]
fn to_lowercase(s: &str) -> (r: String)
    ensures
        r@ == unicode_lowercase(s@),
{
    s.to_lowercase()
}

/// What the `key` and `value` string fields of a JSON payload are: each is
/// `None` when the payload does not parse, is not an object, or lacks the
/// field as a string.
pub uninterp spec fn json_payload_fields(payload: Seq<char>) -> (Option<Seq<char>>, Option<Seq<char>>);

pub open spec fn opt_chars(o: Option<String>) -> Option<Seq<char>> {
    match o {
        Some(s) => Some(s@),
        None => None,
    }
}

/// Parses the payload with `serde_json::from_str` into a `Value` (`Null`
/// when it does not parse) and reads its `key` and `value` fields with
/// `Value::get` and `Value::as_str`. The contract names the result as a
/// function of the payload's characters and says no more.
#[verifier::external_body]
fn payload_fields(payload: &str) -> (r: (Option<String>, Option<String>))
    ensures
        (opt_chars(r.0), opt_chars(r.1)) == json_payload_fields(payload@),
{
    let v: serde_json::Value = serde_json::from_str(payload).unwrap_or(serde_json::Value::Null);
    (
        v.get("key").and_then(|x| x.as_str()).map(|x| x.to_string()),
        v.get("value").and_then(|x| x.as_str()).map(|x| x.to_string()),
    )
}

/// What a card button press changes.
#[derive(Clone, Copy, Debug, PartialEq, Eq, Structural)]
pub enum CounterAction {
    Inc,
    Dec,
    Reset,
    SetValue,
    Ignore,
}

/// A decoded press: the card it came from (when the event id carries a
/// number before its first `:`), the event name in lower case, the state
/// key (default `count`) and the string value of the payload.
pub struct CardNotify {
    pub card_id: Option<usize>,
    pub event: String,
    pub key: String,
    pub value: Option<String>,
}

/// The action of a lower-cased event name: `inc`/`plus`/`add` increments,
/// `dec`/`minus`/`sub` decrements, `reset`/`clear` zeroes, a name starting
/// with `set` stores the value; the first match in that order wins.
pub open spec fn spec_notify_action(ev: Seq<char>) -> CounterAction {
    if contains(ev, "inc"@) || contains(ev, "plus"@) || contains(ev, "add"@) {
        CounterAction::Inc
    } else if contains(ev, "dec"@) || contains(ev, "minus"@) || contains(ev, "sub"@) {
        CounterAction::Dec
    } else if contains(ev, "reset"@) || contains(ev, "clear"@) {
        CounterAction::Reset
    } else if starts_with(ev, "set"@) {
        CounterAction::SetValue
    } else {
        CounterAction::Ignore
    }
}

fn has(ev: &Vec<char>, p: &str) -> (b: bool)
    ensures
        b == contains(ev@, p@),
{
    let pv = chars_of(p);
    assert(ev@.subrange(0, ev@.len() as int) == ev@);
    find_in(ev, 0, ev.len(), &pv).is_some()
}

/// The action of a (lower-cased) event name.
pub fn notify_action(ev: &str) -> (a: CounterAction)
    ensures
        a == spec_notify_action(ev@),
{
    let v = chars_of(ev);
    if has(&v, "inc") || has(&v, "plus") || has(&v, "add") {
        CounterAction::Inc
    } else if has(&v, "dec") || has(&v, "minus") || has(&v, "sub") {
        CounterAction::Dec
    } else if has(&v, "reset") || has(&v, "clear") {
        CounterAction::Reset
    } else {
        let starts = v.len() >= 3 && v[0] == 's' && v[1] == 'e' && v[2] == 't';
        proof {
            reveal_strlit("set");
            if v@.len() >= 3 {
                if starts {
                    assert(v@.take(3) =~= "set"@);
                } else {
                    assert(v@.take(3)[0] != "set"@[0] || v@.take(3)[1] != "set"@[1] || v@.take(3)[2]
                        != "set"@[2]);
                }
            }
        }
        if starts {
            CounterAction::SetValue
        } else {
            CounterAction::Ignore
        }
    }
}

/// The card id and event name of a tagged event id `<card>:<event>`.
pub open spec fn spec_split_event(event_id: Seq<char>) -> (Option<usize>, Seq<char>) {
    let k = before_char(event_id, ':');
    if k < event_id.len() {
        (spec_parse_usize(event_id.take(k as int)), unicode_lowercase(event_id.skip(k as int + 1)))
    } else {
        (None, unicode_lowercase(event_id))
    }
}

/// Decode a press from its tagged event id and JSON payload.
pub fn decode_card_notify(event_id: &str, payload: &str) -> (r: CardNotify)
    ensures
        (r.card_id, r.event@) == spec_split_event(event_id@),
        r.key@ == match json_payload_fields(payload@).0 {
            Some(k) => k,
            None => "count"@,
        },
        opt_chars(r.value) == json_payload_fields(payload@).1,
{
    let v = chars_of(event_id);
    let n = v.len();
    let k = crate::text::scan_to_char(&v, 0, n, ':');
    assert(v@.subrange(0, n as int) == v@);
    let (card_id, event) = if k < n {
        let id = string_of(&v, 0, k);
        let rest = string_of(&v, k + 1, n);
        assert(v@.subrange(0, k as int) == v@.take(k as int));
        assert(v@.subrange(k + 1, n as int) == v@.skip(k + 1));
        (parse_usize(id.as_str()), to_lowercase(rest.as_str()))
    } else {
        (None, to_lowercase(event_id))
    };
    let (key, value) = payload_fields(payload);
    let key = match key {
        Some(k) => k,
        None => String::from_str("count"),
    };
    CardNotify { card_id, event, key, value }
}

// ---------------------------------------------------------------------------
// Applying a press to a card's state
// ---------------------------------------------------------------------------

/// The counter under a state value: its integer, or 0 when absent or not
/// an integer.
pub open spec fn counter_of(v: Option<Seq<char>>) -> int {
    match v {
        Some(s) => match spec_parse_i64(s) {
            Some(n) => n as int,
            None => 0,
        },
        None => 0,
    }
}

/// The counter stored under `key` in `card`.
pub fn counter_value(card: &CardState, key: &str) -> (n: i64)
    ensures
        n == counter_of(card.value_of(key@)),
{
    match card.get(key) {
        Some(s) => match parse_i64(s.as_str()) {
            Some(n) => n,
            None => 0,
        },
        None => 0,
    }
}

/// Whether applying `action` to the counter under `key` would leave `i64`.
pub fn counter_would_overflow(card: &CardState, key: &str, action: CounterAction) -> (b: bool)
    ensures
        b == ((action == CounterAction::Inc && counter_of(card.value_of(key@)) == i64::MAX) || (
        action == CounterAction::Dec && counter_of(card.value_of(key@)) == i64::MIN)),
{
    let n = counter_value(card, key);
    (action == CounterAction::Inc && n == i64::MAX) || (action == CounterAction::Dec && n
        == i64::MIN)
}

/// The value a press stores under its key, if it stores one.
pub open spec fn stored_value(action: CounterAction, counter: int, value: Option<Seq<char>>) -> Option<Seq<char>> {
    match action {
        CounterAction::Inc => Some(int_decimal(counter + 1)),
        CounterAction::Dec => Some(int_decimal(counter - 1)),
        CounterAction::Reset => Some("0"@),
        CounterAction::SetValue => value,
        CounterAction::Ignore => None,
    }
}

/// Apply a press to the card's state: the counter under `key` goes up or
/// down by one or back to `0`, or `set` stores the payload's value. Only
/// the entry under `key` changes; returns whether it changed.
pub fn apply_counter_action(card: &mut CardState, key: String, action: CounterAction, value: Option<String>) -> (changed: bool)
    requires
        action == CounterAction::Inc ==> counter_of(old(card).value_of(key@)) < i64::MAX,
        action == CounterAction::Dec ==> counter_of(old(card).value_of(key@)) > i64::MIN,
    ensures
        changed == stored_value(action, counter_of(old(card).value_of(key@)), opt_chars(value)) is Some,
        forall|k: Seq<char>|
            #[trigger] final(card).value_of(k) == if k == key@ && changed {
                stored_value(action, counter_of(old(card).value_of(key@)), opt_chars(value))
            } else {
                old(card).value_of(k)
            },
{
    match action {
        CounterAction::Inc => {
            let n = counter_value(card, key.as_str());
            card.insert(key, format_i64(n + 1));
            true
        },
        CounterAction::Dec => {
            let n = counter_value(card, key.as_str());
            card.insert(key, format_i64(n - 1));
            true
        },
        CounterAction::Reset => {
            card.insert(key, String::from_str("0"));
            true
        },
        CounterAction::SetValue => match value {
            Some(v) => {
                card.insert(key, v);
                true
            },
            None => false,
        },
        CounterAction::Ignore => false,
    }
}

/// What a button's event name does. A name that mentions an increment
/// (`inc`, `plus`, `add`) increments, whatever else it says; otherwise one
/// that mentions a decrement (`dec`, `minus`, `sub`) decrements; otherwise
/// `reset` or `clear` zeroes; otherwise a name starting with `set` stores
/// the value. A name mentioning none of these is ignored.
pub proof fn law_notify_action_keywords(ev: Seq<char>)
    ensures
        contains(ev, "inc"@) || contains(ev, "plus"@) || contains(ev, "add"@) ==> spec_notify_action(ev)
            == CounterAction::Inc,
        !contains(ev, "inc"@) && !contains(ev, "plus"@) && !contains(ev, "add"@) && (contains(ev, "dec"@)
            || contains(ev, "minus"@) || contains(ev, "sub"@)) ==> spec_notify_action(ev)
            == CounterAction::Dec,
        !contains(ev, "inc"@) && !contains(ev, "plus"@) && !contains(ev, "add"@) && !contains(ev, "dec"@)
            && !contains(ev, "minus"@) && !contains(ev, "sub"@) && (contains(ev, "reset"@) || contains(
            ev,
            "clear"@,
        )) ==> spec_notify_action(ev) == CounterAction::Reset,
        spec_notify_action(ev) == CounterAction::Reset ==> contains(ev, "reset"@) || contains(
            ev,
            "clear"@,
        ),
        spec_notify_action(ev) == CounterAction::SetValue ==> starts_with(ev, "set"@),
        spec_notify_action(ev) == CounterAction::Ignore ==> !contains(ev, "inc"@) && !contains(
            ev,
            "plus"@,
        ) && !contains(ev, "add"@) && !contains(ev, "dec"@) && !contains(ev, "minus"@) && !contains(
            ev,
            "sub"@,
        ) && !contains(ev, "reset"@) && !contains(ev, "clear"@) && !starts_with(ev, "set"@),
{
}

} // verus!
