//! A parser for the JSON this tool exchanges: decoded strings and string
//! arrays for the members the documents are read for, and generic skipping
//! over members of any value kind, so that unknown members are tolerated.
//! The grammar is stated by the `spec` functions; each executable parser is
//! proved to return exactly what the corresponding `spec` function denotes.
//!
//! Strings support the standard JSON escapes, including `\uXXXX` with
//! surrogate pairs. Whitespace is the four JSON whitespace characters.

use vstd::prelude::*;

verus! {

broadcast use vstd::utf8::char_u32_cast;

/// The four whitespace characters JSON allows between tokens.
pub open spec fn is_json_ws(c: char) -> bool {
    c == ' ' || c == '\t' || c == '\n' || c == '\r'
}

/// The first position at or after `i` holding a non-whitespace character
/// (or the end of the text).
pub open spec fn skip_ws(s: Seq<char>, i: int) -> int
    decreases s.len() - i,
{
    if 0 <= i < s.len() && is_json_ws(s[i]) {
        skip_ws(s, i + 1)
    } else {
        i
    }
}

pub proof fn lemma_skip_ws_bounds(s: Seq<char>, i: int)
    requires
        0 <= i <= s.len(),
    ensures
        i <= skip_ws(s, i) <= s.len(),
    decreases s.len() - i,
{
    if i < s.len() && is_json_ws(s[i]) {
        lemma_skip_ws_bounds(s, i + 1);
    }
}

fn is_ws_char(c: char) -> (r: bool)
    ensures
        r == is_json_ws(c),
{
    c == ' ' || c == '\t' || c == '\n' || c == '\r'
}

/// Advances past whitespace, landing on `skip_ws`.
pub(crate) fn ws_at(v: &Vec<char>, i: usize) -> (j: usize)
    requires
        i <= v@.len(),
    ensures
        j == skip_ws(v@, i as int),
        i <= j <= v@.len(),
    decreases v@.len() - i,
{
    if i < v.len() && is_ws_char(v[i]) {
        ws_at(v, i + 1)
    } else {
        i
    }
}

/// The numeric value of one hexadecimal digit, upper or lower case.
pub open spec fn hex_val(c: char) -> Option<int> {
    let u = c as u32;
    if 48 <= u <= 57 {
        Some(u - 48)
    } else if 97 <= u <= 102 {
        Some(u - 87)
    } else if 65 <= u <= 70 {
        Some(u - 55)
    } else {
        None
    }
}

/// The value of the four hexadecimal digits at `i`, if all four are digits.
pub open spec fn hex4(s: Seq<char>, i: int) -> Option<int> {
    if 0 <= i && i + 4 <= s.len() {
        match (hex_val(s[i]), hex_val(s[i + 1]), hex_val(s[i + 2]), hex_val(s[i + 3])) {
            (Some(a), Some(b), Some(c), Some(d)) => Some(a * 4096 + b * 256 + c * 16 + d),
            _ => None,
        }
    } else {
        None
    }
}

fn hex_digit_val(c: char) -> (r: Option<u32>)
    ensures
        match r {
            Some(u) => hex_val(c) == Some(u as int) && u < 16,
            None => hex_val(c) is None,
        },
{
    let u = c as u32;
    if 48 <= u && u <= 57 {
        Some(u - 48)
    } else if 97 <= u && u <= 102 {
        Some(u - 87)
    } else if 65 <= u && u <= 70 {
        Some(u - 55)
    } else {
        None
    }
}

fn hex4_at(v: &Vec<char>, i: usize) -> (r: Option<u32>)
    requires
        i <= v@.len(),
    ensures
        match r {
            Some(u) => hex4(v@, i as int) == Some(u as int) && u < 0x10000 && i + 4
                <= v@.len(),
            None => hex4(v@, i as int) is None,
        },
{
    if v.len() - i >= 4 {
        match (
            hex_digit_val(v[i]),
            hex_digit_val(v[i + 1]),
            hex_digit_val(v[i + 2]),
            hex_digit_val(v[i + 3]),
        ) {
            (Some(a), Some(b), Some(c), Some(d)) => Some(a * 4096 + b * 256 + c * 16 + d),
            _ => None,
        }
    } else {
        None
    }
}

/// The character a single-character escape stands for, if `c` is one.
pub open spec fn simple_escape(c: char) -> Option<char> {
    if c == '"' {
        Some('"')
    } else if c == '\\' {
        Some('\\')
    } else if c == '/' {
        Some('/')
    } else if c == 'b' {
        Some('\u{0008}')
    } else if c == 'f' {
        Some('\u{000C}')
    } else if c == 'n' {
        Some('\n')
    } else if c == 'r' {
        Some('\r')
    } else if c == 't' {
        Some('\t')
    } else {
        None
    }
}

fn esc_char(c: char) -> (r: Option<char>)
    ensures
        r == simple_escape(c),
{
    if c == '"' {
        Some('"')
    } else if c == '\\' {
        Some('\\')
    } else if c == '/' {
        Some('/')
    } else if c == 'b' {
        Some('\u{0008}')
    } else if c == 'f' {
        Some('\u{000C}')
    } else if c == 'n' {
        Some('\n')
    } else if c == 'r' {
        Some('\r')
    } else if c == 't' {
        Some('\t')
    } else {
        None
    }
}

/// The character with the given Unicode scalar value.
pub open spec fn scalar_char(u: int) -> char {
    (u as u32) as char
}

/// Relies on `char::from_u32`: it returns `Some` exactly on Unicode scalar
/// values, and the character it returns has the given value.
pub assume_specification[ char::from_u32 ](i: u32) -> (r: Option<char>)
    ensures
        r is Some <==> vstd::utf8::is_scalar(i),
        r matches Some(c) ==> c as u32 == i,
;

fn code_char(u: u32) -> (c: char)
    requires
        vstd::utf8::is_scalar(u),
    ensures
        c == scalar_char(u as int),
        c as u32 == u,
{
    match char::from_u32(u) {
        Some(c) => {
            proof {
                assert(u as int as u32 == u);
                vstd::utf8::char_u32_cast(c, u);
            }
            c
        }
        None => {
            proof {
                assert(false);
            }
            ' '
        }
    }
}

fn prepend(c: char, t: Vec<char>) -> (r: Vec<char>)
    ensures
        r@ == seq![c] + t@,
{
    let ghost t0 = t@;
    let mut r: Vec<char> = Vec::new();
    r.push(c);
    let mut rest = t;
    r.append(&mut rest);
    proof {
        assert(r@ =~= seq![c] + t0);
    }
    r
}

/// The decoded content of a JSON string whose opening quote stands just
/// before `i`, together with the position after its closing quote.
pub open spec fn parse_string_body(s: Seq<char>, i: int) -> Option<(Seq<char>, int)>
    decreases s.len() - i,
{
    if !(0 <= i < s.len()) {
        None
    } else if s[i] == '"' {
        Some((Seq::empty(), i + 1))
    } else if s[i] == '\\' {
        if i + 1 < s.len() {
            let e = s[i + 1];
            match simple_escape(e) {
                Some(d) => match parse_string_body(s, i + 2) {
                    Some(p) => Some((seq![d] + p.0, p.1)),
                    None => None,
                },
                None => if e == 'u' {
                    match hex4(s, i + 2) {
                        Some(u) => if u < 0xD800 || u > 0xDFFF {
                            match parse_string_body(s, i + 6) {
                                Some(p) => Some((seq![scalar_char(u)] + p.0, p.1)),
                                None => None,
                            }
                        } else if u < 0xDC00 {
                            if i + 8 <= s.len() && s[i + 6] == '\\' && s[i + 7] == 'u' {
                                match hex4(s, i + 8) {
                                    Some(l) => if 0xDC00 <= l <= 0xDFFF {
                                        match parse_string_body(s, i + 12) {
                                            Some(p) => Some(
                                                (
                                                    seq![
                                                        scalar_char(
                                                            0x10000 + (u - 0xD800) * 0x400 + (l
                                                                - 0xDC00),
                                                        ),
                                                    ] + p.0,
                                                    p.1,
                                                ),
                                            ),
                                            None => None,
                                        }
                                    } else {
                                        None
                                    },
                                    None => None,
                                }
                            } else {
                                None
                            }
                        } else {
                            None
                        },
                        None => None,
                    }
                } else {
                    None
                },
            }
        } else {
            None
        }
    } else if (s[i] as u32) < 0x20 {
        None
    } else {
        match parse_string_body(s, i + 1) {
            Some(p) => Some((seq![s[i]] + p.0, p.1)),
            None => None,
        }
    }
}

/// A successful string-body parse ends after `i` and within the text.
pub proof fn lemma_string_body_advances(s: Seq<char>, i: int)
    ensures
        parse_string_body(s, i) matches Some(p) ==> i < p.1 <= s.len(),
    decreases s.len() - i,
{
    if 0 <= i < s.len() {
        lemma_string_body_advances(s, i + 1);
        if i + 2 <= s.len() {
            lemma_string_body_advances(s, i + 2);
        }
        if i + 6 <= s.len() {
            lemma_string_body_advances(s, i + 6);
        }
        if i + 12 <= s.len() {
            lemma_string_body_advances(s, i + 12);
        }
    }
}

/// Parses a JSON string body, returning its decoded characters and the
/// position after the closing quote.
pub fn parse_string_body_at(v: &Vec<char>, i: usize) -> (r: Option<(Vec<char>, usize)>)
    requires
        i <= v@.len(),
    ensures
        match r {
            Some(p) => parse_string_body(v@, i as int) == Some((p.0@, p.1 as int)) && i < p.1
                <= v@.len(),
            None => parse_string_body(v@, i as int) is None,
        },
    decreases v@.len() - i,
{
    if i >= v.len() {
        return None;
    }
    let c = v[i];
    if c == '"' {
        return Some((Vec::new(), i + 1));
    }
    if c == '\\' {
        if i + 1 >= v.len() {
            return None;
        }
        let e = v[i + 1];
        match esc_char(e) {
            Some(d) => match parse_string_body_at(v, i + 2) {
                Some((t, j)) => Some((prepend(d, t), j)),
                None => None,
            },
            None => {
                if e == 'u' {
                    match hex4_at(v, i + 2) {
                        Some(u) => {
                            if u < 0xD800 || u > 0xDFFF {
                                match parse_string_body_at(v, i + 6) {
                                    Some((t, j)) => Some((prepend(code_char(u), t), j)),
                                    None => None,
                                }
                            } else if u < 0xDC00 {
                                if v.len() - i >= 8 && v[i + 6] == '\\' && v[i + 7] == 'u' {
                                    match hex4_at(v, i + 8) {
                                        Some(l) => {
                                            if 0xDC00 <= l && l <= 0xDFFF {
                                                let cp = 0x10000 + (u - 0xD800) * 0x400 + (l
                                                    - 0xDC00);
                                                match parse_string_body_at(v, i + 12) {
                                                    Some((t, j)) => Some(
                                                        (prepend(code_char(cp), t), j),
                                                    ),
                                                    None => None,
                                                }
                                            } else {
                                                None
                                            }
                                        }
                                        None => None,
                                    }
                                } else {
                                    None
                                }
                            } else {
                                None
                            }
                        }
                        None => None,
                    }
                } else {
                    None
                }
            }
        }
    } else if (c as u32) < 0x20 {
        None
    } else {
        match parse_string_body_at(v, i + 1) {
            Some((t, j)) => Some((prepend(c, t), j)),
            None => None,
        }
    }
}

/// The tail of a JSON string array, starting right after a completed
/// element: either a closing bracket or a comma followed by another string.
pub open spec fn parse_list_rest(s: Seq<char>, i: int) -> Option<(Seq<Seq<char>>, int)>
    decreases s.len() - i,
        when 0 <= i <= s.len()
        via parse_list_rest_decreases
{
    let a = skip_ws(s, i);
    if a < s.len() && s[a] == ']' {
        Some((Seq::empty(), a + 1))
    } else if a < s.len() && s[a] == ',' {
        let b = skip_ws(s, a + 1);
        if b < s.len() && s[b] == '"' {
            match parse_string_body(s, b + 1) {
                Some(p) => match parse_list_rest(s, p.1) {
                    Some(q) => Some((seq![p.0] + q.0, q.1)),
                    None => None,
                },
                None => None,
            }
        } else {
            None
        }
    } else {
        None
    }
}

#[via_fn]
proof fn parse_list_rest_decreases(s: Seq<char>, i: int) {
    lemma_skip_ws_bounds(s, i);
    let a = skip_ws(s, i);
    if a < s.len() && s[a] == ',' {
        lemma_skip_ws_bounds(s, a + 1);
        let b = skip_ws(s, a + 1);
        if b < s.len() && s[b] == '"' {
            lemma_string_body_advances(s, b + 1);
        }
    }
}

/// A whole JSON string array, starting right after its opening bracket.
pub open spec fn parse_string_list(s: Seq<char>, i: int) -> Option<(Seq<Seq<char>>, int)> {
    let a = skip_ws(s, i);
    if a < s.len() && s[a] == ']' {
        Some((Seq::empty(), a + 1))
    } else if a < s.len() && s[a] == '"' {
        match parse_string_body(s, a + 1) {
            Some(p) => match parse_list_rest(s, p.1) {
                Some(q) => Some((seq![p.0] + q.0, q.1)),
                None => None,
            },
            None => None,
        }
    } else {
        None
    }
}

fn prepend_list(x: Vec<char>, t: Vec<Vec<char>>) -> (r: Vec<Vec<char>>)
    ensures
        r.deep_view() == seq![x@] + t.deep_view(),
{
    let ghost xv = x@;
    let ghost tv = t@;
    let ghost t0 = t.deep_view();
    let mut r: Vec<Vec<char>> = Vec::new();
    r.push(x);
    let mut rest = t;
    r.append(&mut rest);
    proof {
        assert(r@ =~= seq![r@[0]] + tv);
        assert(r.deep_view() =~~= seq![xv] + t0);
    }
    r
}

/// Parses the tail of a string array, mirroring `parse_list_rest`.
pub fn parse_list_rest_at(v: &Vec<char>, i: usize) -> (r: Option<(Vec<Vec<char>>, usize)>)
    requires
        i <= v@.len(),
    ensures
        match r {
            Some(p) => parse_list_rest(v@, i as int) == Some((p.0.deep_view(), p.1 as int)) && i
                < p.1 <= v@.len(),
            None => parse_list_rest(v@, i as int) is None,
        },
    decreases v@.len() - i,
{
    let a = ws_at(v, i);
    if a < v.len() && v[a] == ']' {
        let empty_list: Vec<Vec<char>> = Vec::new();
        proof {
            assert(empty_list.deep_view() =~= Seq::<Seq<char>>::empty());
        }
        Some((empty_list, a + 1))
    } else if a < v.len() && v[a] == ',' {
        let b = ws_at(v, a + 1);
        if b < v.len() && v[b] == '"' {
            match parse_string_body_at(v, b + 1) {
                Some((x, j)) => match parse_list_rest_at(v, j) {
                    Some((q, m)) => Some((prepend_list(x, q), m)),
                    None => None,
                },
                None => None,
            }
        } else {
            None
        }
    } else {
        None
    }
}

/// Parses a whole string array, mirroring `parse_string_list`.
pub fn parse_string_list_at(v: &Vec<char>, i: usize) -> (r: Option<(Vec<Vec<char>>, usize)>)
    requires
        i <= v@.len(),
    ensures
        match r {
            Some(p) => parse_string_list(v@, i as int) == Some((p.0.deep_view(), p.1 as int))
                && i < p.1 <= v@.len(),
            None => parse_string_list(v@, i as int) is None,
        },
{
    let a = ws_at(v, i);
    if a < v.len() && v[a] == ']' {
        let empty_list: Vec<Vec<char>> = Vec::new();
        proof {
            assert(empty_list.deep_view() =~= Seq::<Seq<char>>::empty());
        }
        Some((empty_list, a + 1))
    } else if a < v.len() && v[a] == '"' {
        match parse_string_body_at(v, a + 1) {
            Some((x, j)) => match parse_list_rest_at(v, j) {
                Some((q, m)) => Some((prepend_list(x, q), m)),
                None => None,
            },
            None => None,
        }
    } else {
        None
    }
}

/// An ASCII decimal digit.
pub open spec fn is_digit(c: char) -> bool {
    48 <= c as u32 <= 57
}

/// The first position at or after `i` holding a non-digit character.
pub open spec fn skip_digits(s: Seq<char>, i: int) -> int
    decreases s.len() - i,
{
    if 0 <= i < s.len() && is_digit(s[i]) {
        skip_digits(s, i + 1)
    } else {
        i
    }
}

pub proof fn lemma_skip_digits_bounds(s: Seq<char>, i: int)
    requires
        0 <= i <= s.len(),
    ensures
        i <= skip_digits(s, i) <= s.len(),
    decreases s.len() - i,
{
    if i < s.len() && is_digit(s[i]) {
        lemma_skip_digits_bounds(s, i + 1);
    }
}

fn is_digit_char(c: char) -> (r: bool)
    ensures
        r == is_digit(c),
{
    let u = c as u32;
    48 <= u && u <= 57
}

fn digits_at(v: &Vec<char>, i: usize) -> (j: usize)
    requires
        i <= v@.len(),
    ensures
        j == skip_digits(v@, i as int),
        i <= j <= v@.len(),
    decreases v@.len() - i,
{
    if i < v.len() && is_digit_char(v[i]) {
        digits_at(v, i + 1)
    } else {
        i
    }
}

/// The position after a JSON number starting at `i`: an optional minus
/// sign, an integer part without leading zeroes, an optional fraction and
/// an optional exponent.
pub open spec fn skip_number(s: Seq<char>, i: int) -> Option<int> {
    let a = if 0 <= i < s.len() && s[i] == '-' {
        i + 1
    } else {
        i
    };
    if 0 <= a < s.len() && is_digit(s[a]) {
        let b = if s[a] == '0' {
            a + 1
        } else {
            skip_digits(s, a)
        };
        let c = if b < s.len() && s[b] == '.' {
            if b + 1 < s.len() && is_digit(s[b + 1]) {
                skip_digits(s, b + 1)
            } else {
                -1
            }
        } else {
            b
        };
        if c < 0 {
            None
        } else {
            let d = if c < s.len() && (s[c] == 'e' || s[c] == 'E') {
                let e = if c + 1 < s.len() && (s[c + 1] == '+' || s[c + 1] == '-') {
                    c + 2
                } else {
                    c + 1
                };
                if e < s.len() && is_digit(s[e]) {
                    skip_digits(s, e)
                } else {
                    -1
                }
            } else {
                c
            };
            if d < 0 {
                None
            } else {
                Some(d)
            }
        }
    } else {
        None
    }
}

/// Advances past a JSON number, mirroring `skip_number`.
fn skip_number_at(v: &Vec<char>, i: usize) -> (r: Option<usize>)
    requires
        i <= v@.len(),
    ensures
        match r {
            Some(j) => skip_number(v@, i as int) == Some(j as int) && i < j <= v@.len(),
            None => skip_number(v@, i as int) is None,
        },
{
    let a = if i < v.len() && v[i] == '-' {
        i + 1
    } else {
        i
    };
    if a < v.len() && is_digit_char(v[a]) {
        let b = if v[a] == '0' {
            a + 1
        } else {
            digits_at(v, a)
        };
        proof {
            lemma_skip_digits_bounds(v@, a + 1);
        }
        let c = if b < v.len() && v[b] == '.' {
            if b + 1 < v.len() && is_digit_char(v[b + 1]) {
                Some(digits_at(v, b + 1))
            } else {
                None
            }
        } else {
            Some(b)
        };
        match c {
            Some(c) => {
                let d = if c < v.len() && (v[c] == 'e' || v[c] == 'E') {
                    let e = if c + 1 < v.len() && (v[c + 1] == '+' || v[c + 1] == '-') {
                        c + 2
                    } else {
                        c + 1
                    };
                    if e < v.len() && is_digit_char(v[e]) {
                        Some(digits_at(v, e))
                    } else {
                        None
                    }
                } else {
                    Some(c)
                };
                d
            }
            None => None,
        }
    } else {
        None
    }
}

/// The position after one JSON value of any kind starting at `i`: a
/// string, a number, `true`, `false`, `null`, an object or an array, with
/// nesting bounded by the fuel (the entry points hand in more fuel than
/// any document can use up, since each level consumes input).
pub open spec fn skip_value(s: Seq<char>, i: int, f: nat) -> Option<int>
    decreases f, 0int,
{
    if f == 0 {
        None
    } else if !(0 <= i < s.len()) {
        None
    } else if s[i] == '"' {
        match parse_string_body(s, i + 1) {
            Some(p) => Some(p.1),
            None => None,
        }
    } else if s[i] == '{' {
        let a = skip_ws(s, i + 1);
        if a < s.len() && s[a] == '}' {
            Some(a + 1)
        } else {
            skip_members(s, a, (f - 1) as nat)
        }
    } else if s[i] == '[' {
        let a = skip_ws(s, i + 1);
        if a < s.len() && s[a] == ']' {
            Some(a + 1)
        } else {
            skip_elements(s, a, (f - 1) as nat)
        }
    } else if s[i] == 't' {
        if i + 4 <= s.len() && s[i + 1] == 'r' && s[i + 2] == 'u' && s[i + 3] == 'e' {
            Some(i + 4)
        } else {
            None
        }
    } else if s[i] == 'f' {
        if i + 5 <= s.len() && s[i + 1] == 'a' && s[i + 2] == 'l' && s[i + 3] == 's' && s[i
            + 4] == 'e' {
            Some(i + 5)
        } else {
            None
        }
    } else if s[i] == 'n' {
        if i + 4 <= s.len() && s[i + 1] == 'u' && s[i + 2] == 'l' && s[i + 3] == 'l' {
            Some(i + 4)
        } else {
            None
        }
    } else {
        skip_number(s, i)
    }
}

/// The members of an object from the first key on, skipped generically;
/// ends after the closing brace.
pub open spec fn skip_members(s: Seq<char>, i: int, f: nat) -> Option<int>
    decreases f, 1int,
{
    if f == 0 {
        None
    } else if 0 <= i < s.len() && s[i] == '"' {
        match parse_string_body(s, i + 1) {
            Some(k) => {
                let a = skip_ws(s, k.1);
                if a < s.len() && s[a] == ':' {
                    let b = skip_ws(s, a + 1);
                    match skip_value(s, b, f) {
                        Some(j) => {
                            let d = skip_ws(s, j);
                            if d < s.len() && s[d] == '}' {
                                Some(d + 1)
                            } else if d < s.len() && s[d] == ',' {
                                skip_members(s, skip_ws(s, d + 1), (f - 1) as nat)
                            } else {
                                None
                            }
                        }
                        None => None,
                    }
                } else {
                    None
                }
            }
            None => None,
        }
    } else {
        None
    }
}

/// The elements of an array from the first element on, skipped
/// generically; ends after the closing bracket.
pub open spec fn skip_elements(s: Seq<char>, i: int, f: nat) -> Option<int>
    decreases f, 1int,
{
    if f == 0 {
        None
    } else {
        match skip_value(s, i, f) {
            Some(j) => {
                let d = skip_ws(s, j);
                if d < s.len() && s[d] == ']' {
                    Some(d + 1)
                } else if d < s.len() && s[d] == ',' {
                    skip_elements(s, skip_ws(s, d + 1), (f - 1) as nat)
                } else {
                    None
                }
            }
            None => None,
        }
    }
}

/// Advances past one JSON value, mirroring `skip_value`.
pub(crate) fn skip_value_at(v: &Vec<char>, i: usize, f: u128) -> (r: Option<usize>)
    requires
        i <= v@.len(),
    ensures
        match r {
            Some(j) => skip_value(v@, i as int, f as nat) == Some(j as int) && i < j
                <= v@.len(),
            None => skip_value(v@, i as int, f as nat) is None,
        },
    decreases v@.len() - i, 0int,
{
    if f == 0 {
        return None;
    }
    if i >= v.len() {
        return None;
    }
    let c = v[i];
    if c == '"' {
        match parse_string_body_at(v, i + 1) {
            Some((_, j)) => Some(j),
            None => None,
        }
    } else if c == '{' {
        let a = ws_at(v, i + 1);
        if a < v.len() && v[a] == '}' {
            Some(a + 1)
        } else {
            skip_members_at(v, a, f - 1)
        }
    } else if c == '[' {
        let a = ws_at(v, i + 1);
        if a < v.len() && v[a] == ']' {
            Some(a + 1)
        } else {
            skip_elements_at(v, a, f - 1)
        }
    } else if c == 't' {
        if v.len() - i >= 4 && v[i + 1] == 'r' && v[i + 2] == 'u' && v[i + 3] == 'e' {
            Some(i + 4)
        } else {
            None
        }
    } else if c == 'f' {
        if v.len() - i >= 5 && v[i + 1] == 'a' && v[i + 2] == 'l' && v[i + 3] == 's' && v[i
            + 4] == 'e' {
            Some(i + 5)
        } else {
            None
        }
    } else if c == 'n' {
        if v.len() - i >= 4 && v[i + 1] == 'u' && v[i + 2] == 'l' && v[i + 3] == 'l' {
            Some(i + 4)
        } else {
            None
        }
    } else {
        skip_number_at(v, i)
    }
}

/// Advances past an object's members, mirroring `skip_members`.
fn skip_members_at(v: &Vec<char>, i: usize, f: u128) -> (r: Option<usize>)
    requires
        i <= v@.len(),
    ensures
        match r {
            Some(j) => skip_members(v@, i as int, f as nat) == Some(j as int) && i < j
                <= v@.len(),
            None => skip_members(v@, i as int, f as nat) is None,
        },
    decreases v@.len() - i, 1int,
{
    if f == 0 {
        return None;
    }
    if i < v.len() && v[i] == '"' {
        match parse_string_body_at(v, i + 1) {
            Some((_, j)) => {
                let a = ws_at(v, j);
                if a < v.len() && v[a] == ':' {
                    let b = ws_at(v, a + 1);
                    match skip_value_at(v, b, f) {
                        Some(j2) => {
                            let d = ws_at(v, j2);
                            if d < v.len() && v[d] == '}' {
                                Some(d + 1)
                            } else if d < v.len() && v[d] == ',' {
                                skip_members_at(v, ws_at(v, d + 1), f - 1)
                            } else {
                                None
                            }
                        }
                        None => None,
                    }
                } else {
                    None
                }
            }
            None => None,
        }
    } else {
        None
    }
}

/// Advances past an array's elements, mirroring `skip_elements`.
fn skip_elements_at(v: &Vec<char>, i: usize, f: u128) -> (r: Option<usize>)
    requires
        i <= v@.len(),
    ensures
        match r {
            Some(j) => skip_elements(v@, i as int, f as nat) == Some(j as int) && i < j
                <= v@.len(),
            None => skip_elements(v@, i as int, f as nat) is None,
        },
    decreases v@.len() - i, 1int,
{
    if f == 0 {
        return None;
    }
    match skip_value_at(v, i, f) {
        Some(j) => {
            let d = ws_at(v, j);
            if d < v.len() && v[d] == ']' {
                Some(d + 1)
            } else if d < v.len() && v[d] == ',' {
                skip_elements_at(v, ws_at(v, d + 1), f - 1)
            } else {
                None
            }
        }
        None => None,
    }
}

} // verus!
