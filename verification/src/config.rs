//! The configuration store: the persisted JSON document holding the upload
//! host and the authorization token, its parser, and the template written on
//! first run.

use vstd::prelude::*;
use crate::json::{parse_string_body, parse_string_body_at, skip_value, skip_value_at, skip_ws,
    ws_at};
use crate::text::{chars_to_string, text_chars};

verus! {

/// The upload host and the credential sent verbatim in the
/// `Authorization` header.
pub struct Configuration {
    pub host: String,
    pub token: String,
}

/// The key naming the host member of the configuration document.
pub open spec fn host_key() -> Seq<char> {
    seq!['h', 'o', 's', 't']
}

/// The key naming the token member of the configuration document.
pub open spec fn token_key() -> Seq<char> {
    seq!['t', 'o', 'k', 'e', 'n']
}

/// The members of the configuration object from a key onward: a string
/// `host` member and a string `token` member must each occur exactly once,
/// in any order; members under any other key are skipped whatever JSON
/// value they hold. `h` and `t` carry the values found so far.
pub open spec fn config_members(
    s: Seq<char>,
    i: int,
    h: Option<Seq<char>>,
    t: Option<Seq<char>>,
    f: nat,
) -> Option<(Seq<char>, Seq<char>)>
    decreases f, 1int,
{
    if f == 0 {
        None
    } else if 0 <= i < s.len() && s[i] == '"' {
        match parse_string_body(s, i + 1) {
            Some(k) => {
                let a = skip_ws(s, k.1);
                if a < s.len() && s[a] == ':' {
                    let b = skip_ws(s, a + 1);
                    if k.0 == host_key() {
                        if h is Some {
                            None
                        } else if b < s.len() && s[b] == '"' {
                            match parse_string_body(s, b + 1) {
                                Some(w) => config_after_member(s, w.1, Some(w.0), t, f),
                                None => None,
                            }
                        } else {
                            None
                        }
                    } else if k.0 == token_key() {
                        if t is Some {
                            None
                        } else if b < s.len() && s[b] == '"' {
                            match parse_string_body(s, b + 1) {
                                Some(w) => config_after_member(s, w.1, h, Some(w.0), f),
                                None => None,
                            }
                        } else {
                            None
                        }
                    } else {
                        match skip_value(s, b, f) {
                            Some(j) => config_after_member(s, j, h, t, f),
                            None => None,
                        }
                    }
                } else {
                    None
                }
            }
            None => None,
        }
    } else {
        None
    }
}

/// After a member's value: either the object closes — then both expected
/// members must have been seen and only whitespace may follow — or a comma
/// leads to the next member.
pub open spec fn config_after_member(
    s: Seq<char>,
    j: int,
    h: Option<Seq<char>>,
    t: Option<Seq<char>>,
    f: nat,
) -> Option<(Seq<char>, Seq<char>)>
    decreases f, 0int,
{
    if f == 0 {
        None
    } else {
        let d = skip_ws(s, j);
        if d < s.len() && s[d] == '}' {
            if skip_ws(s, d + 1) == s.len() {
                match (h, t) {
                    (Some(hv), Some(tv)) => Some((hv, tv)),
                    _ => None,
                }
            } else {
                None
            }
        } else if d < s.len() && s[d] == ',' {
            config_members(s, skip_ws(s, d + 1), h, t, (f - 1) as nat)
        } else {
            None
        }
    }
}

/// The configuration grammar: one JSON object holding a string `host`
/// member and a string `token` member once each, in any order, among any
/// other members, which are ignored. The result is the decoded
/// `(host, token)` pair.
pub open spec fn spec_parse_config(s: Seq<char>) -> Option<(Seq<char>, Seq<char>)> {
    let i = skip_ws(s, 0);
    if i < s.len() && s[i] == '{' {
        let a = skip_ws(s, i + 1);
        config_members(s, a, None, None, (s.len() + 2) as nat)
    } else {
        None
    }
}

/// The value an optional decoded member holds, as a sequence.
pub open spec fn opt_chars(o: Option<Vec<char>>) -> Option<Seq<char>> {
    match o {
        Some(x) => Some(x@),
        None => None,
    }
}

fn key_is_host(k: &Vec<char>) -> (r: bool)
    ensures
        r == (k@ == host_key()),
{
    let r = k.len() == 4 && k[0] == 'h' && k[1] == 'o' && k[2] == 's' && k[3] == 't';
    proof {
        if r {
            assert(k@ =~= host_key());
        }
    }
    r
}

fn key_is_token(k: &Vec<char>) -> (r: bool)
    ensures
        r == (k@ == token_key()),
{
    let r = k.len() == 5 && k[0] == 't' && k[1] == 'o' && k[2] == 'k' && k[3] == 'e' && k[4]
        == 'n';
    proof {
        if r {
            assert(k@ =~= token_key());
        }
    }
    r
}

/// Walks the members, mirroring `config_members`.
fn config_members_at(
    v: &Vec<char>,
    i: usize,
    h: Option<Vec<char>>,
    t: Option<Vec<char>>,
    f: u128,
) -> (r: Option<(Vec<char>, Vec<char>)>)
    requires
        i <= v@.len(),
    ensures
        match r {
            Some(p) => config_members(v@, i as int, opt_chars(h), opt_chars(t), f as nat)
                == Some((p.0@, p.1@)),
            None => config_members(v@, i as int, opt_chars(h), opt_chars(t), f as nat)
                is None,
        },
    decreases v@.len() - i, 1int,
{
    if f == 0 {
        return None;
    }
    if i < v.len() && v[i] == '"' {
        match parse_string_body_at(v, i + 1) {
            Some((k, j)) => {
                let a = ws_at(v, j);
                if a < v.len() && v[a] == ':' {
                    let b = ws_at(v, a + 1);
                    if key_is_host(&k) {
                        if h.is_some() {
                            None
                        } else if b < v.len() && v[b] == '"' {
                            match parse_string_body_at(v, b + 1) {
                                Some((w, m)) => config_after_member_at(v, m, Some(w), t, f),
                                None => None,
                            }
                        } else {
                            None
                        }
                    } else if key_is_token(&k) {
                        if t.is_some() {
                            None
                        } else if b < v.len() && v[b] == '"' {
                            match parse_string_body_at(v, b + 1) {
                                Some((w, m)) => config_after_member_at(v, m, h, Some(w), f),
                                None => None,
                            }
                        } else {
                            None
                        }
                    } else {
                        match skip_value_at(v, b, f) {
                            Some(j2) => config_after_member_at(v, j2, h, t, f),
                            None => None,
                        }
                    }
                } else {
                    None
                }
            }
            None => None,
        }
    } else {
        None
    }
}

/// Continues after a member's value, mirroring `config_after_member`.
fn config_after_member_at(
    v: &Vec<char>,
    j: usize,
    h: Option<Vec<char>>,
    t: Option<Vec<char>>,
    f: u128,
) -> (r: Option<(Vec<char>, Vec<char>)>)
    requires
        j <= v@.len(),
    ensures
        match r {
            Some(p) => config_after_member(v@, j as int, opt_chars(h), opt_chars(t), f as nat)
                == Some((p.0@, p.1@)),
            None => config_after_member(v@, j as int, opt_chars(h), opt_chars(t), f as nat)
                is None,
        },
    decreases v@.len() - j, 0int,
{
    if f == 0 {
        return None;
    }
    let d = ws_at(v, j);
    if d < v.len() && v[d] == '}' {
        if ws_at(v, d + 1) == v.len() {
            match (h, t) {
                (Some(hv), Some(tv)) => Some((hv, tv)),
                _ => None,
            }
        } else {
            None
        }
    } else if d < v.len() && v[d] == ',' {
        config_members_at(v, ws_at(v, d + 1), h, t, f - 1)
    } else {
        None
    }
}

/// Reads a configuration out of the text of the configuration file.
/// Returns `Some` exactly when the text matches the configuration grammar,
/// and then carries the decoded host and token.
pub fn parse_config(text: &str) -> (r: Option<Configuration>)
    ensures
        match r {
            Some(c) => spec_parse_config(text@) == Some((c.host@, c.token@)),
            None => spec_parse_config(text@) is None,
        },
{
    let v = text_chars(text);
    let i = ws_at(&v, 0);
    if i < v.len() && v[i] == '{' {
        let a = ws_at(&v, i + 1);
        let f: u128 = v.len() as u128 + 2;
        match config_members_at(&v, a, None, None, f) {
            Some((hv, tv)) => Some(
                Configuration { host: chars_to_string(&hv), token: chars_to_string(&tv) },
            ),
            None => None,
        }
    } else {
        None
    }
}

/// The template document written on first run, for the user to fill in:
/// a pretty-printed object with a host placeholder and an empty token.
pub fn config_template() -> (r: String)
    ensures
        r@ == "{\n  \"host\": \"https://\",\n  \"token\": \"\"\n}"@,
{
    "{\n  \"host\": \"https://\",\n  \"token\": \"\"\n}".to_owned()
}

/// The fixed path fragment, below the per-user profile directory, where the
/// configuration directory lives.
pub fn config_dir_suffix() -> (r: String)
    ensures
        r@ == "\\.config\\uppy"@,
{
    "\\.config\\uppy".to_owned()
}

/// The name of the configuration file inside the configuration directory.
pub fn config_file_name() -> (r: String)
    ensures
        r@ == "config.json"@,
{
    "config.json".to_owned()
}

} // verus!
