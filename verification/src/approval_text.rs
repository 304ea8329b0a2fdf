//! The lines an approval card shows for a typed request: the command with
//! its directory and environment, a diff's summary, a filesystem or
//! network operation's targets.

use vstd::prelude::*;
use crate::text::{decimal, push_decimal, push_str};

verus! {

broadcast use vstd::string::group_string_axioms;

/// `parts` joined by `sep`.
pub open spec fn joined_with(parts: Seq<Seq<char>>, sep: Seq<char>) -> Seq<char>
    decreases parts.len(),
{
    if parts.len() == 0 {
        Seq::empty()
    } else if parts.len() == 1 {
        parts[0]
    } else {
        joined_with(parts.drop_last(), sep) + sep + parts.last()
    }
}

pub open spec fn strs(v: Seq<String>) -> Seq<Seq<char>> {
    v.map_values(|s: String| s@)
}

/// `parts.join(sep)`.
pub fn join(parts: &Vec<String>, sep: &str) -> (s: String)
    ensures
        s@ == joined_with(strs(parts@), sep@),
{
    let mut s = String::new();
    let mut i: usize = 0;
    while i < parts.len()
        invariant
            i <= parts@.len(),
            s@ == joined_with(strs(parts@.take(i as int)), sep@),
        decreases parts.len() - i,
    {
        let ghost prev = strs(parts@.take(i as int));
        assert(strs(parts@.take(i + 1)) =~= prev.push(parts@[i as int]@));
        assert(strs(parts@.take(i + 1)).drop_last() =~= prev);
        if i > 0 {
            push_str(&mut s, sep);
        }
        push_str(&mut s, parts[i].as_str());
        i = i + 1;
    }
    assert(parts@.take(parts@.len() as int) == parts@);
    s
}

/// The command to show: its command line, else its arguments joined by
/// spaces.
pub fn command_line_text(command_line: Option<String>, argv: &Vec<String>) -> (s: String)
    ensures
        s@ == match command_line {
            Some(c) => c@,
            None => joined_with(strs(argv@), " "@),
        },
{
    match command_line {
        Some(c) => c,
        None => join(argv, " "),
    }
}

/// `cwd: <dir>`, or nothing for no directory.
pub fn cwd_text(cwd: Option<&str>) -> (s: String)
    ensures
        s@ == match cwd {
            Some(d) => if d@.len() == 0 { Seq::<char>::empty() } else { "cwd: "@ + d@ },
            None => Seq::<char>::empty(),
        },
{
    match cwd {
        Some(d) => {
            if d.is_empty() {
                String::new()
            } else {
                let mut s = String::from_str("cwd: ");
                push_str(&mut s, d);
                s
            }
        },
        None => String::new(),
    }
}

/// `env: <keys>`, or nothing when no variable is set.
pub fn env_text(keys: &Vec<String>) -> (s: String)
    ensures
        s@ == if keys@.len() == 0 { Seq::<char>::empty() } else { "env: "@ + joined_with(strs(keys@), ", "@) },
{
    if keys.len() == 0 {
        String::new()
    } else {
        let mut s = String::from_str("env: ");
        let j = join(keys, ", ");
        push_str(&mut s, j.as_str());
        s
    }
}

/// A diff's summary line: the server's own, else `<n> file(s), +<a> / -<d>`
/// (a missing count reads 0).
pub fn diff_summary_text(summary: Option<String>, files: Option<u64>, additions: Option<u64>, deletions: Option<u64>) -> (s: String)
    ensures
        s@ == match summary {
            Some(t) => t@,
            None => decimal(files.unwrap_or(0) as nat) + " file(s), +"@ + decimal(
                additions.unwrap_or(0) as nat,
            ) + " / -"@ + decimal(deletions.unwrap_or(0) as nat),
        },
{
    match summary {
        Some(t) => t,
        None => {
            let f = match files {
                Some(x) => x,
                None => 0,
            };
            let a = match additions {
                Some(x) => x,
                None => 0,
            };
            let d = match deletions {
                Some(x) => x,
                None => 0,
            };
            let mut s = String::new();
            push_decimal(&mut s, f);
            push_str(&mut s, " file(s), +");
            push_decimal(&mut s, a);
            push_str(&mut s, " / -");
            push_decimal(&mut s, d);
            s
        },
    }
}

/// `op: <op>`.
pub fn op_text(op: &str) -> (s: String)
    ensures
        s@ == "op: "@ + op@,
{
    let mut s = String::from_str("op: ");
    push_str(&mut s, op);
    s
}

/// A diff's operation line: `op: <op>`, or nothing for no operation.
pub fn diff_op_text(op: Option<&str>) -> (s: String)
    ensures
        s@ == match op {
            Some(o) => if o@.len() == 0 { Seq::<char>::empty() } else { "op: "@ + o@ },
            None => Seq::<char>::empty(),
        },
{
    match op {
        Some(o) => if o.is_empty() {
            String::new()
        } else {
            op_text(o)
        },
        None => String::new(),
    }
}

/// The warning for a write outside the workspace.
pub fn outside_workspace_text(outside: bool) -> (s: String)
    ensures
        s@ == if outside { "writes outside workspace"@ } else { Seq::<char>::empty() },
{
    if outside {
        String::from_str("writes outside workspace")
    } else {
        String::new()
    }
}

/// Decimal texts of the ports.
pub open spec fn port_texts(ports: Seq<u16>) -> Seq<Seq<char>> {
    ports.map_values(|p: u16| decimal(p as nat))
}

/// The hosts joined by `, `, then `ports: <ports>` after two spaces (or
/// alone when there is no host) when there are ports.
pub open spec fn spec_hosts_text(hosts: Seq<Seq<char>>, ports: Seq<u16>) -> Seq<char> {
    let h = joined_with(hosts, ", "@);
    if ports.len() == 0 {
        h
    } else if h.len() == 0 {
        "ports: "@ + joined_with(port_texts(ports), ", "@)
    } else {
        h + "  ports: "@ + joined_with(port_texts(ports), ", "@)
    }
}

fn join_ports(ports: &Vec<u16>) -> (s: String)
    ensures
        s@ == joined_with(port_texts(ports@), ", "@),
{
    let mut s = String::new();
    let mut i: usize = 0;
    while i < ports.len()
        invariant
            i <= ports@.len(),
            s@ == joined_with(port_texts(ports@.take(i as int)), ", "@),
        decreases ports.len() - i,
    {
        let ghost prev = port_texts(ports@.take(i as int));
        assert(port_texts(ports@.take(i + 1)) =~= prev.push(decimal(ports@[i as int] as nat)));
        assert(port_texts(ports@.take(i + 1)).drop_last() =~= prev);
        if i > 0 {
            push_str(&mut s, ", ");
        }
        push_decimal(&mut s, ports[i] as u64);
        i = i + 1;
    }
    assert(ports@.take(ports@.len() as int) == ports@);
    s
}

/// The host line of a network request.
pub fn hosts_text(hosts: &Vec<String>, ports: &Vec<u16>) -> (s: String)
    ensures
        s@ == spec_hosts_text(strs(hosts@), ports@),
{
    let h = join(hosts, ", ");
    if ports.len() == 0 {
        return h;
    }
    let p = join_ports(ports);
    if h.as_str().is_empty() {
        let mut s = String::from_str("ports: ");
        push_str(&mut s, p.as_str());
        s
    } else {
        let mut s = h;
        push_str(&mut s, "  ports: ");
        push_str(&mut s, p.as_str());
        s
    }
}

/// The diff pane's body until hunks are fetched: the preview id, a blank
/// line, and the request's body.
pub fn diff_preview_body(preview_id: &str, body: &str) -> (s: String)
    ensures
        s@ == "preview_id: "@ + preview_id@ + "\n\n"@ + body@,
{
    let mut s = String::from_str("preview_id: ");
    push_str(&mut s, preview_id);
    push_str(&mut s, "\n\n");
    push_str(&mut s, body);
    s
}

} // verus!

