//! The response parser and the decision that follows a successful upload:
//! a body carrying exactly one URL leads to a clipboard write; any other
//! cardinality is silently ignored; a malformed body is a fatal diagnostic.

use vstd::prelude::*;
use crate::json::{parse_string_body, parse_string_body_at, parse_string_list, parse_string_list_at,
    skip_value, skip_value_at, skip_ws, ws_at};
use crate::text::{chars_to_string, text_chars};
use crate::upload::UploadOutcome;

verus! {

/// The key naming the URL list in the response document.
pub open spec fn files_key() -> Seq<char> {
    seq!['f', 'i', 'l', 'e', 's']
}

/// The members of the response object from a key onward: a `files` member
/// holding an array of strings must occur exactly once; members under any
/// other key are skipped whatever JSON value they hold. `fs` carries the
/// URL list found so far.
pub open spec fn files_members(
    s: Seq<char>,
    i: int,
    fs: Option<Seq<Seq<char>>>,
    f: nat,
) -> Option<Seq<Seq<char>>>
    decreases f, 1int,
{
    if f == 0 {
        None
    } else if 0 <= i < s.len() && s[i] == '"' {
        match parse_string_body(s, i + 1) {
            Some(k) => {
                let a = skip_ws(s, k.1);
                if a < s.len() && s[a] == ':' {
                    let b = skip_ws(s, a + 1);
                    if k.0 == files_key() {
                        if fs is Some {
                            None
                        } else if b < s.len() && s[b] == '[' {
                            match parse_string_list(s, b + 1) {
                                Some(l) => files_after_member(s, l.1, Some(l.0), f),
                                None => None,
                            }
                        } else {
                            None
                        }
                    } else {
                        match skip_value(s, b, f) {
                            Some(j) => files_after_member(s, j, fs, f),
                            None => None,
                        }
                    }
                } else {
                    None
                }
            }
            None => None,
        }
    } else {
        None
    }
}

/// After a member's value: either the object closes — then the `files`
/// member must have been seen and only whitespace may follow — or a comma
/// leads to the next member.
pub open spec fn files_after_member(
    s: Seq<char>,
    j: int,
    fs: Option<Seq<Seq<char>>>,
    f: nat,
) -> Option<Seq<Seq<char>>>
    decreases f, 0int,
{
    if f == 0 {
        None
    } else {
        let d = skip_ws(s, j);
        if d < s.len() && s[d] == '}' {
            if skip_ws(s, d + 1) == s.len() {
                fs
            } else {
                None
            }
        } else if d < s.len() && s[d] == ',' {
            files_members(s, skip_ws(s, d + 1), fs, (f - 1) as nat)
        } else {
            None
        }
    }
}

/// The response grammar: one JSON object holding a `files` member whose
/// value is an array of strings, once, among any other members, which are
/// ignored. The result is the decoded URLs in order.
pub open spec fn spec_parse_response(s: Seq<char>) -> Option<Seq<Seq<char>>> {
    let i = skip_ws(s, 0);
    if i < s.len() && s[i] == '{' {
        let a = skip_ws(s, i + 1);
        files_members(s, a, None, (s.len() + 2) as nat)
    } else {
        None
    }
}

/// The URL list an optional decoded member holds, as sequences.
pub open spec fn opt_urls(o: Option<Vec<Vec<char>>>) -> Option<Seq<Seq<char>>> {
    match o {
        Some(x) => Some(x.deep_view()),
        None => None,
    }
}

fn key_is_files(k: &Vec<char>) -> (r: bool)
    ensures
        r == (k@ == files_key()),
{
    let r = k.len() == 5 && k[0] == 'f' && k[1] == 'i' && k[2] == 'l' && k[3] == 'e' && k[4]
        == 's';
    proof {
        if r {
            assert(k@ =~= files_key());
        }
    }
    r
}

/// Walks the members, mirroring `files_members`.
fn files_members_at(v: &Vec<char>, i: usize, fs: Option<Vec<Vec<char>>>, f: u128) -> (r: Option<
    Vec<Vec<char>>,
>)
    requires
        i <= v@.len(),
    ensures
        match r {
            Some(l) => files_members(v@, i as int, opt_urls(fs), f as nat) == Some(
                l.deep_view(),
            ),
            None => files_members(v@, i as int, opt_urls(fs), f as nat) is None,
        },
    decreases v@.len() - i, 1int,
{
    if f == 0 {
        return None;
    }
    if i < v.len() && v[i] == '"' {
        match parse_string_body_at(v, i + 1) {
            Some((k, j)) => {
                let a = ws_at(v, j);
                if a < v.len() && v[a] == ':' {
                    let b = ws_at(v, a + 1);
                    if key_is_files(&k) {
                        if fs.is_some() {
                            None
                        } else if b < v.len() && v[b] == '[' {
                            match parse_string_list_at(v, b + 1) {
                                Some((l, m)) => files_after_member_at(v, m, Some(l), f),
                                None => None,
                            }
                        } else {
                            None
                        }
                    } else {
                        match skip_value_at(v, b, f) {
                            Some(j2) => files_after_member_at(v, j2, fs, f),
                            None => None,
                        }
                    }
                } else {
                    None
                }
            }
            None => None,
        }
    } else {
        None
    }
}

/// Continues after a member's value, mirroring `files_after_member`.
fn files_after_member_at(v: &Vec<char>, j: usize, fs: Option<Vec<Vec<char>>>, f: u128) -> (r:
    Option<Vec<Vec<char>>>)
    requires
        j <= v@.len(),
    ensures
        match r {
            Some(l) => files_after_member(v@, j as int, opt_urls(fs), f as nat) == Some(
                l.deep_view(),
            ),
            None => files_after_member(v@, j as int, opt_urls(fs), f as nat) is None,
        },
    decreases v@.len() - j, 0int,
{
    if f == 0 {
        return None;
    }
    let d = ws_at(v, j);
    if d < v.len() && v[d] == '}' {
        if ws_at(v, d + 1) == v.len() {
            fs
        } else {
            None
        }
    } else if d < v.len() && v[d] == ',' {
        files_members_at(v, ws_at(v, d + 1), fs, f - 1)
    } else {
        None
    }
}

/// Reads the URL list out of a response body. Returns `Some` exactly when
/// the body matches the response grammar, and then carries the decoded URLs
/// in order.
pub fn parse_response(body: &str) -> (r: Option<Vec<String>>)
    ensures
        match r {
            Some(files) => spec_parse_response(body@) == Some(files.deep_view()),
            None => spec_parse_response(body@) is None,
        },
{
    let v = text_chars(body);
    let i = ws_at(&v, 0);
    if i < v.len() && v[i] == '{' {
        let a = ws_at(&v, i + 1);
        let f: u128 = v.len() as u128 + 2;
        match files_members_at(&v, a, None, f) {
            Some(l) => Some(strings_of(l)),
            None => None,
        }
    } else {
        None
    }
}

fn strings_of(l: Vec<Vec<char>>) -> (r: Vec<String>)
    ensures
        r.deep_view() == l.deep_view(),
{
    let mut r: Vec<String> = Vec::new();
    let mut k: usize = 0;
    while k < l.len()
        invariant
            k <= l.len(),
            r@.len() == k,
            forall|q: int| 0 <= q < k ==> r@[q]@ == l@[q]@,
        decreases l.len() - k,
    {
        r.push(chars_to_string(&l[k]));
        k += 1;
    }
    proof {
        assert(r.deep_view() =~~= l.deep_view());
    }
    r
}

/// What the pipeline does after each upload outcome. `CopyUrl` holds the
/// one URL bound for the clipboard; `Ignore` is the silent stop on a body
/// with zero or several URLs; `MalformedBody` is the fatal diagnostic on a
/// body outside the response grammar; the `Report` steps carry each failure
/// to the user and end the run.
pub enum PipelineStep {
    CopyUrl { url: String },
    Ignore,
    MalformedBody,
    ReportIOFailure,
    ReportTransportFailure,
    ReportClientError { status: u16 },
    ReportServerError { status: u16 },
}

/// Decides the step that follows an upload outcome. On success the body is
/// parsed: exactly one URL is handed on for the clipboard, any other count
/// is silently ignored, and an unparseable body is the fatal diagnostic.
/// Each failure outcome maps to its report.
pub fn next_step(outcome: &UploadOutcome) -> (a: PipelineStep)
    ensures
        outcome matches UploadOutcome::Success { body } ==> match spec_parse_response(body@) {
            Some(files) => {
                if files.len() == 1 {
                    a matches PipelineStep::CopyUrl { url } && url@ == files[0]
                } else {
                    a == PipelineStep::Ignore
                }
            },
            None => a == PipelineStep::MalformedBody,
        },
        outcome is IOFailure ==> a == PipelineStep::ReportIOFailure,
        outcome is TransportFailure ==> a == PipelineStep::ReportTransportFailure,
        (*outcome) matches UploadOutcome::ClientError { status } ==> a == (
        PipelineStep::ReportClientError { status }),
        (*outcome) matches UploadOutcome::ServerError { status } ==> a == (
        PipelineStep::ReportServerError { status }),
{
    match outcome {
        UploadOutcome::Success { body } => {
            match parse_response(body.as_str()) {
                Some(mut files) => {
                    if files.len() == 1 {
                        let url = files.pop().unwrap();
                        proof {
                            assert(url@ == spec_parse_response(body@).unwrap()[0]);
                        }
                        PipelineStep::CopyUrl { url }
                    } else {
                        PipelineStep::Ignore
                    }
                }
                None => PipelineStep::MalformedBody,
            }
        }
        UploadOutcome::IOFailure => PipelineStep::ReportIOFailure,
        UploadOutcome::TransportFailure => PipelineStep::ReportTransportFailure,
        UploadOutcome::ClientError { status } => PipelineStep::ReportClientError {
            status: *status,
        },
        UploadOutcome::ServerError { status } => PipelineStep::ReportServerError {
            status: *status,
        },
    }
}

} // verus!
