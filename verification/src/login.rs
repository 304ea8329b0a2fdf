//! Server URL validation and the provisioning string.
//!
//! URLs are parsed by the `url` crate; the library keeps what it reads of a
//! parsed URL (its serialization, scheme and host) as plain strings.

use vstd::prelude::*;
use crate::text::{before_char, chars_of, push_str, scan_to_char, str_eq, string_of, trim, trim_str};

verus! {

broadcast use vstd::string::group_string_axioms;

/// A URL as parsed by `url::Url::parse`: its serialization, scheme and host.
#[derive(Clone, Debug)]
pub struct ParsedUrl {
    pub serialization: String,
    pub scheme: String,
    pub host: Option<String>,
}

pub open spec fn opt_view(o: Option<String>) -> Option<Seq<char>> {
    match o {
        Some(s) => Some(s@),
        None => None,
    }
}

pub open spec fn parsed_view(u: ParsedUrl) -> (Seq<char>, Seq<char>, Option<Seq<char>>) {
    (u.serialization@, u.scheme@, opt_view(u.host))
}

impl ParsedUrl {
    /// The scheme, e.g. `https`.
    pub fn scheme(&self) -> (s: &str)
        ensures
            s@ == self.scheme@,
    {
        self.scheme.as_str()
    }

    /// The host, if the URL has one.
    pub fn host_str(&self) -> (h: Option<&str>)
        ensures
            match h {
                Some(x) => self.host is Some && x@ == self.host.unwrap()@,
                None => self.host is None,
            },
    {
        match &self.host {
            Some(h) => Some(h.as_str()),
            None => None,
        }
    }

    /// The whole URL as `url::Url` serializes it.
    pub fn as_str(&self) -> (s: &str)
        ensures
            s@ == self.serialization@,
    {
        self.serialization.as_str()
    }
}

/// What `url::Url::parse` yields for an input: on success the
/// serialization, scheme and host of the URL; on failure the error's
/// message.
pub uninterp spec fn url_parse_result(input: Seq<char>) -> Result<
    (Seq<char>, Seq<char>, Option<Seq<char>>),
    Seq<char>,
>;

/// Calls `url::Url::parse` and keeps the URL's serialization (`as_str`),
/// `scheme` and `host_str`, or the `ParseError`'s display text. The
/// contract claims only that the outcome is the named function of the
/// input.
#[verifier::external_body]
fn parse_url(input: &str) -> (r: Result<ParsedUrl, String>)
    ensures
        url_parse_result(input@) == match r {
            Ok(u) => Ok(parsed_view(u)),
            Err(e) => Err(e@),
        },
{
    match url::Url::parse(input) {
        Ok(u) => Ok(
            ParsedUrl {
                serialization: u.as_str().to_string(),
                scheme: u.scheme().to_string(),
                host: u.host_str().map(|h| h.to_string()),
            },
        ),
        Err(e) => Err(e.to_string()),
    }
}

pub open spec fn msg_required() -> Seq<char> {
    "Server URL is required"@
}

pub open spec fn msg_invalid(e: Seq<char>) -> Seq<char> {
    "Invalid server URL: "@ + e
}

pub open spec fn msg_scheme(scheme: Seq<char>) -> Seq<char> {
    "Server URL scheme must be http or https (got `"@ + scheme + "`)"@
}

pub open spec fn msg_host() -> Seq<char> {
    "Server URL must include a host"@
}

/// The verdict on a parse outcome of the (trimmed) server URL.
pub open spec fn spec_check_parsed(
    parsed: Result<(Seq<char>, Seq<char>, Option<Seq<char>>), Seq<char>>,
) -> Result<(Seq<char>, Seq<char>, Option<Seq<char>>), Seq<char>> {
    match parsed {
        Err(e) => Err(msg_invalid(e)),
        Ok(u) => if u.1 != "http"@ && u.1 != "https"@ {
            Err(msg_scheme(u.1))
        } else if u.2 is None {
            Err(msg_host())
        } else {
            Ok(u)
        },
    }
}

pub open spec fn result_view(r: Result<ParsedUrl, String>) -> Result<
    (Seq<char>, Seq<char>, Option<Seq<char>>),
    Seq<char>,
> {
    match r {
        Ok(u) => Ok(parsed_view(u)),
        Err(e) => Err(e@),
    }
}

/// Judge a parsed server URL: the parser's error becomes
/// `Invalid server URL: …`; only `http` and `https` are accepted, and the
/// URL must have a host.
pub fn check_parsed_server_url(parsed: Result<ParsedUrl, String>) -> (r: Result<ParsedUrl, String>)
    ensures
        result_view(r) == spec_check_parsed(result_view(parsed)),
{
    match parsed {
        Err(e) => {
            let mut m = String::new();
            push_str(&mut m, "Invalid server URL: ");
            push_str(&mut m, e.as_str());
            Err(m)
        },
        Ok(u) => {
            let is_http = str_eq(u.scheme.as_str(), "http");
            let is_https = str_eq(u.scheme.as_str(), "https");
            if !is_http && !is_https {
                let mut m = String::new();
                push_str(&mut m, "Server URL scheme must be http or https (got `");
                push_str(&mut m, u.scheme.as_str());
                push_str(&mut m, "`)");
                return Err(m);
            }
            if u.host.is_none() {
                return Err(String::from_str("Server URL must include a host"));
            }
            Ok(u)
        },
    }
}

/// What `validate_server_url` returns for `s`.
pub open spec fn spec_validate_server_url(s: Seq<char>) -> Result<
    (Seq<char>, Seq<char>, Option<Seq<char>>),
    Seq<char>,
> {
    if trim(s).len() == 0 {
        Err(msg_required())
    } else {
        spec_check_parsed(url_parse_result(trim(s)))
    }
}

/// Validate the server URL typed at login: trimmed, non-empty, parsed by
/// the `url` crate, `http` or `https`, with a host. The error is a one-line
/// message for the status label.
pub fn validate_server_url(s: &str) -> (r: Result<ParsedUrl, String>)
    ensures
        result_view(r) == spec_validate_server_url(s@),
{
    let trimmed = trim_str(s);
    if trimmed.is_empty() {
        return Err(String::from_str("Server URL is required"));
    }
    let parsed = parse_url(trimmed);
    check_parsed_server_url(parsed)
}

pub open spec fn unknown_host() -> Seq<char> {
    "unknown-host"@
}

/// The host of `u` (no scheme, no port), or `unknown-host`.
pub fn host_from_url(u: &ParsedUrl) -> (h: String)
    ensures
        h@ == match u.host {
            Some(x) => x@,
            None => unknown_host(),
        },
{
    match &u.host {
        Some(h) => h.clone(),
        None => String::from_str("unknown-host"),
    }
}

/// On-disk server configuration.
#[derive(Clone, Debug)]
pub struct ServerConfig {
    pub server_url: String,
    pub profile_id: String,
}

/// A decoded provisioning string.
#[derive(Clone, Debug)]
pub struct Provision {
    pub url: ParsedUrl,
    pub profile: String,
    /// Empty when no token was given.
    pub token: String,
}

/// `s.splitn(3, '|')`, with missing parts empty.
pub open spec fn split3_bar(s: Seq<char>) -> (Seq<char>, Seq<char>, Seq<char>) {
    let i = before_char(s, '|');
    if i >= s.len() {
        (s, Seq::empty(), Seq::empty())
    } else {
        let rest = s.skip(i as int + 1);
        let j = before_char(rest, '|');
        if j >= rest.len() {
            (s.take(i as int), rest, Seq::empty())
        } else {
            (s.take(i as int), rest.take(j as int), rest.skip(j as int + 1))
        }
    }
}

pub open spec fn msg_profile_missing() -> Seq<char> {
    "provision: profile id missing (want base_url|profile|token)"@
}

/// What `parse_provision_string` returns: the URL verdict, the trimmed
/// profile and token.
pub open spec fn spec_parse_provision(
    prov: Seq<char>,
) -> Result<((Seq<char>, Seq<char>, Option<Seq<char>>), Seq<char>, Seq<char>), Seq<char>> {
    let parts = split3_bar(trim(prov));
    match spec_validate_server_url(parts.0) {
        Err(e) => Err(e),
        Ok(u) => if trim(parts.1).len() == 0 {
            Err(msg_profile_missing())
        } else {
            Ok((u, trim(parts.1), trim(parts.2)))
        },
    }
}

/// Decode `base_url|profile_id|token` (token optional). The URL is
/// validated as at login; a missing profile is an error.
pub fn parse_provision_string(prov: &str) -> (r: Result<Provision, String>)
    ensures
        match r {
            Ok(p) => spec_parse_provision(prov@) == Ok::<_, Seq<char>>(
                (parsed_view(p.url), p.profile@, p.token@),
            ),
            Err(e) => spec_parse_provision(prov@) == Err::<
                ((Seq<char>, Seq<char>, Option<Seq<char>>), Seq<char>, Seq<char>),
                _,
            >(e@),
        },
{
    let t = trim_str(prov);
    let v = chars_of(t);
    let n = v.len();
    let ghost s = v@;
    assert(v@.subrange(0, n as int) == s);
    let i = scan_to_char(&v, 0, n, '|');
    let (a_hi, b_lo, b_hi, c_lo, c_hi) = if i >= n {
        (n, n, n, n, n)
    } else {
        let j = scan_to_char(&v, i + 1, n, '|');
        assert(s.skip(i + 1) == v@.subrange(i + 1, n as int));
        if j >= n {
            (i, i + 1, n, n, n)
        } else {
            (i, i + 1, j, j + 1, n)
        }
    };
    let ghost parts = split3_bar(s);
    assert(parts.0 == v@.subrange(0, a_hi as int));
    assert(parts.1 == v@.subrange(b_lo as int, b_hi as int));
    assert(parts.2 == v@.subrange(c_lo as int, c_hi as int));
    let url_part = string_of(&v, 0, a_hi);
    let profile_part = string_of(&v, b_lo, b_hi);
    let token_part = string_of(&v, c_lo, c_hi);
    let url = match validate_server_url(url_part.as_str()) {
        Ok(u) => u,
        Err(e) => return Err(e),
    };
    let profile = trim_str(profile_part.as_str());
    let token = trim_str(token_part.as_str());
    if profile.is_empty() {
        return Err(String::from_str("provision: profile id missing (want base_url|profile|token)"));
    }
    Ok(Provision { url, profile: String::from_str(profile), token: String::from_str(token) })
}

/// The server configuration a provisioning string stores.
pub fn provision_server_config(p: &Provision) -> (c: ServerConfig)
    ensures
        c.server_url@ == p.url.serialization@,
        c.profile_id@ == p.profile@,
{
    ServerConfig { server_url: p.url.serialization.clone(), profile_id: p.profile.clone() }
}

/// Every server URL accepted at login, or inside a provisioning string, is
/// an `http` or `https` URL with a host, as the `url` crate parsed the
/// trimmed input; a blank input is always refused.
pub proof fn law_accepted_server_url(s: Seq<char>)
    ensures
        spec_validate_server_url(s) matches Ok(u) ==> (u.1 == "http"@ || u.1 == "https"@)
            && u.2 is Some && url_parse_result(trim(s)) == Ok::<
            (Seq<char>, Seq<char>, Option<Seq<char>>),
            Seq<char>,
        >(u),
        trim(s).len() == 0 ==> spec_validate_server_url(s) == Err::<
            (Seq<char>, Seq<char>, Option<Seq<char>>),
            Seq<char>,
        >(msg_required()),
        spec_parse_provision(s) matches Ok(p) ==> spec_validate_server_url(
            split3_bar(trim(s)).0,
        ) == Ok::<(Seq<char>, Seq<char>, Option<Seq<char>>), Seq<char>>(p.0) && p.1.len() > 0,
{
}

} // verus!

