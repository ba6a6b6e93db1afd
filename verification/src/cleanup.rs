//! The post-upload cleanup decision: reading the user's answer, hashing the
//! uploaded file, and naming the temporary file the original is renamed to.

use vstd::prelude::*;
use vstd::string::StringExecFns;
use md5::{Digest, Md5};
use crate::text::{chars_to_string, text_chars};

verus! {

/// The three-way answer to the deletion prompt.
#[derive(PartialEq, Eq, Structural, Clone, Copy, Debug)]
pub enum DeletionChoice {
    Yes,
    No,
    Invalid,
}

/// The whitespace the prompt answer is trimmed of: the White_Space set
/// that `char::is_whitespace` documents.
pub open spec fn is_answer_ws(c: char) -> bool {
    let u = c as u32;
    (9 <= u && u <= 13) || u == 32 || u == 0x85 || u == 0xA0 || u == 0x1680 || (0x2000 <= u
        && u <= 0x200A) || u == 0x2028 || u == 0x2029 || u == 0x202F || u == 0x205F || u
        == 0x3000
}

/// The first position at or after `i` holding a non-whitespace character.
pub open spec fn trim_start_idx(s: Seq<char>, i: int) -> int
    decreases s.len() - i,
{
    if 0 <= i < s.len() && is_answer_ws(s[i]) {
        trim_start_idx(s, i + 1)
    } else {
        i
    }
}

/// The position after the last non-whitespace character before `j`.
pub open spec fn trim_end_idx(s: Seq<char>, j: int) -> int
    decreases j,
{
    if 0 < j <= s.len() && is_answer_ws(s[j - 1]) {
        trim_end_idx(s, j - 1)
    } else {
        j
    }
}

/// The answer with its surrounding whitespace removed.
pub open spec fn trimmed(s: Seq<char>) -> Seq<char> {
    let a = trim_start_idx(s, 0);
    let b = trim_end_idx(s, s.len() as int);
    if a <= b {
        s.subrange(a, b)
    } else {
        Seq::empty()
    }
}

/// An upper-case ASCII letter folded to lower case; anything else kept.
pub open spec fn lower_char(c: char) -> char {
    if 65 <= c as u32 <= 90 {
        (((c as u32) + 32) as u8) as char
    } else {
        c
    }
}

/// The answer folded to lower case, character by character.
pub open spec fn lowered(s: Seq<char>) -> Seq<char> {
    s.map_values(|c: char| lower_char(c))
}

/// How one line of input answers the deletion prompt: `yes` or `y` —
/// trimmed, case-insensitively — consents, `no` or `n` declines, and
/// anything else is invalid.
pub open spec fn spec_choice(s: Seq<char>) -> DeletionChoice {
    let t = lowered(trimmed(s));
    if t == seq!['y', 'e', 's'] || t == seq!['y'] {
        DeletionChoice::Yes
    } else if t == seq!['n', 'o'] || t == seq!['n'] {
        DeletionChoice::No
    } else {
        DeletionChoice::Invalid
    }
}

fn is_answer_ws_char(c: char) -> (r: bool)
    ensures
        r == is_answer_ws(c),
{
    let u = c as u32;
    (9 <= u && u <= 13) || u == 32 || u == 0x85 || u == 0xA0 || u == 0x1680 || (0x2000 <= u
        && u <= 0x200A) || u == 0x2028 || u == 0x2029 || u == 0x202F || u == 0x205F || u
        == 0x3000
}

fn start_at(v: &Vec<char>, i: usize) -> (j: usize)
    requires
        i <= v@.len(),
    ensures
        j == trim_start_idx(v@, i as int),
        i <= j <= v@.len(),
    decreases v@.len() - i,
{
    if i < v.len() && is_answer_ws_char(v[i]) {
        start_at(v, i + 1)
    } else {
        i
    }
}

fn end_at(v: &Vec<char>, j: usize) -> (r: usize)
    requires
        j <= v@.len(),
    ensures
        r == trim_end_idx(v@, j as int),
        r <= j,
    decreases j,
{
    if j > 0 && is_answer_ws_char(v[j - 1]) {
        end_at(v, j - 1)
    } else {
        j
    }
}

fn lower_char_at(c: char) -> (r: char)
    ensures
        r == lower_char(c),
{
    let u = c as u32;
    if 65 <= u && u <= 90 {
        ((u + 32) as u8) as char
    } else {
        c
    }
}

/// Reads one line of prompt input into the three-way deletion choice.
pub fn parse_choice(line: &str) -> (c: DeletionChoice)
    ensures
        c == spec_choice(line@),
{
    let v = text_chars(line);
    let a = start_at(&v, 0);
    let b = end_at(&v, v.len());
    let mut t: Vec<char> = Vec::new();
    let mut k = a;
    if a < b {
        while k < b
            invariant
                a <= k <= b <= v@.len(),
                t@ == v@.subrange(a as int, k as int).map_values(|ch: char| lower_char(ch)),
            decreases b - k,
        {
            t.push(lower_char_at(v[k]));
            k += 1;
            proof {
                assert(v@.subrange(a as int, k as int) =~= v@.subrange(
                    a as int,
                    k - 1 as int,
                ).push(v@[k - 1]));
                assert(v@.subrange(a as int, k as int).map_values(|ch: char| lower_char(ch))
                    =~= v@.subrange(a as int, k - 1 as int).map_values(
                    |ch: char| lower_char(ch),
                ).push(lower_char(v@[k - 1])));
            }
        }
    }
    proof {
        if a < b {
            assert(t@ == lowered(trimmed(v@)));
        } else {
            assert(trimmed(v@) =~= Seq::<char>::empty());
            assert(t@ =~= lowered(trimmed(v@)));
        }
    }
    let yes = t.len() == 3 && t[0] == 'y' && t[1] == 'e' && t[2] == 's' || t.len() == 1 && t[0]
        == 'y';
    let no = t.len() == 2 && t[0] == 'n' && t[1] == 'o' || t.len() == 1 && t[0] == 'n';
    proof {
        if t@.len() == 3 && t@[0] == 'y' && t@[1] == 'e' && t@[2] == 's' {
            assert(t@ =~= seq!['y', 'e', 's']);
        }
        if t@.len() == 1 && t@[0] == 'y' {
            assert(t@ =~= seq!['y']);
        }
        if t@.len() == 2 && t@[0] == 'n' && t@[1] == 'o' {
            assert(t@ =~= seq!['n', 'o']);
        }
        if t@.len() == 1 && t@[0] == 'n' {
            assert(t@ =~= seq!['n']);
        }
    }
    if yes {
        DeletionChoice::Yes
    } else if no {
        DeletionChoice::No
    } else {
        DeletionChoice::Invalid
    }
}

/// The MD5 digest of a byte sequence, as the outside hasher computes it.
pub uninterp spec fn md5_of(bytes: Seq<u8>) -> Seq<u8>;

/// Relies on `md5::Md5` through the one-shot `Digest::digest`: the digest
/// is 16 bytes and depends on the input bytes alone.
#[verifier::external_body]
fn md5_digest(bytes: &Vec<u8>) -> (r: Vec<u8>)
    ensures
        r@ == md5_of(bytes@),
        r@.len() == 16,
{
    Md5::digest(bytes).to_vec()
}

/// The lower-case hexadecimal digit for a value below 16.
pub open spec fn hex_digit(n: int) -> char {
    if n < 10 {
        ((48 + n) as u8) as char
    } else {
        ((87 + n) as u8) as char
    }
}

/// A byte sequence written as lower-case hexadecimal, two digits per byte.
pub open spec fn hex_of(bytes: Seq<u8>) -> Seq<char>
    decreases bytes.len(),
{
    if bytes.len() == 0 {
        Seq::empty()
    } else {
        seq![hex_digit((bytes[0] / 16) as int), hex_digit((bytes[0] % 16) as int)] + hex_of(bytes.drop_first())
    }
}

pub proof fn lemma_hex_of_snoc(s: Seq<u8>, x: u8)
    ensures
        hex_of(s.push(x)) == hex_of(s) + seq![hex_digit((x / 16) as int), hex_digit((x % 16) as int)],
    decreases s.len(),
{
    if s.len() == 0 {
        assert(s =~= Seq::<u8>::empty());
        assert(s.push(x) =~= seq![x]);
        reveal_with_fuel(hex_of, 2);
        assert(seq![x].drop_first() =~= Seq::<u8>::empty());
        assert(hex_of(s.push(x)) =~= hex_of(s) + seq![hex_digit((x / 16) as int), hex_digit((x % 16) as int)]);
    } else {
        lemma_hex_of_snoc(s.drop_first(), x);
        assert(s.push(x).drop_first() =~= s.drop_first().push(x));
        assert(hex_of(s.push(x)) =~= hex_of(s) + seq![hex_digit((x / 16) as int), hex_digit((x % 16) as int)]);
    }
}

pub proof fn lemma_hex_of_len(s: Seq<u8>)
    ensures
        hex_of(s).len() == 2 * s.len(),
    decreases s.len(),
{
    if s.len() > 0 {
        lemma_hex_of_len(s.drop_first());
    }
}

fn hex_digit_char(n: u8) -> (c: char)
    requires
        n < 16,
    ensures
        c == hex_digit(n as int),
{
    if n < 10 {
        (48 + n) as char
    } else {
        (87 + n) as char
    }
}

/// Writes bytes as lower-case hexadecimal characters.
fn to_hex(bytes: &Vec<u8>) -> (r: Vec<char>)
    ensures
        r@ == hex_of(bytes@),
{
    let mut r: Vec<char> = Vec::new();
    let mut k: usize = 0;
    while k < bytes.len()
        invariant
            k <= bytes@.len(),
            r@ == hex_of(bytes@.take(k as int)),
        decreases bytes@.len() - k,
    {
        let b = bytes[k];
        r.push(hex_digit_char(b / 16));
        r.push(hex_digit_char(b % 16));
        k += 1;
        proof {
            assert(bytes@.take(k as int) =~= bytes@.take(k - 1 as int).push(bytes@[k - 1]));
            lemma_hex_of_snoc(bytes@.take(k - 1 as int), bytes@[k - 1]);
        }
    }
    proof {
        assert(bytes@.take(bytes@.len() as int) =~= bytes@);
    }
    r
}

/// The MD5 digest of the given bytes, written as 32 lower-case
/// hexadecimal characters.
pub fn md5_hex(bytes: &Vec<u8>) -> (r: String)
    ensures
        r@ == hex_of(md5_of(bytes@)),
        r@.len() == 32,
{
    let d = md5_digest(bytes);
    let h = to_hex(&d);
    proof {
        lemma_hex_of_len(d@);
    }
    chars_to_string(&h)
}

/// The name, inside the temporary directory, that a consented deletion
/// renames the file to: the content digest in hexadecimal with the fixed
/// suffix.
pub fn temp_file_name(bytes: &Vec<u8>) -> (r: String)
    ensures
        r@ == hex_of(md5_of(bytes@)) + ".tmp"@,
{
    let mut s = md5_hex(bytes);
    s.append(".tmp");
    s
}

/// The temporary-file name computed from a file read in chunks: the digest
/// of the assembled content in hexadecimal with the fixed suffix.
pub fn temp_file_name_chunked(chunks: &Vec<Vec<u8>>) -> (r: String)
    ensures
        r@ == hex_of(md5_of(chunks.deep_view().flatten())) + ".tmp"@,
{
    let mut s = md5_hex_chunked(chunks);
    s.append(".tmp");
    s
}

/// The chunks a byte sequence falls into when read `k` bytes at a time.
pub open spec fn chunks_of(s: Seq<u8>, k: int) -> Seq<Seq<u8>>
    decreases s.len(),
        when k >= 1
{
    if s.len() == 0 {
        Seq::empty()
    } else if s.len() <= k {
        seq![s]
    } else {
        seq![s.take(k)] + chunks_of(s.skip(k), k)
    }
}

pub proof fn lemma_chunks_flatten(s: Seq<u8>, k: int)
    requires
        k >= 1,
    ensures
        chunks_of(s, k).flatten() == s,
    decreases s.len(),
{
    if s.len() == 0 {
        assert(chunks_of(s, k).flatten() =~= s);
    } else if s.len() <= k {
        assert(chunks_of(s, k) =~= seq![s]);
        chunks_of(s, k).lemma_flatten_one_element();
    } else {
        lemma_chunks_flatten(s.skip(k), k);
        assert(chunks_of(s, k).drop_first() =~= chunks_of(s.skip(k), k));
        assert(chunks_of(s, k).flatten() == s.take(k) + chunks_of(s.skip(k), k).flatten());
        assert(s.take(k) + s.skip(k) =~= s);
    }
}

/// Reading a file in chunks of any size and hashing the assembled bytes
/// gives the same digest as hashing the whole content at once: the chunk
/// size cannot affect the digest.
pub proof fn lemma_digest_chunking(s: Seq<u8>, k: int)
    requires
        k >= 1,
    ensures
        md5_of(chunks_of(s, k).flatten()) == md5_of(s),
{
    lemma_chunks_flatten(s, k);
}

/// Assembles the chunks a file was read in and gives the digest of the
/// whole content, as 32 lower-case hexadecimal characters.
pub fn md5_hex_chunked(chunks: &Vec<Vec<u8>>) -> (r: String)
    ensures
        r@ == hex_of(md5_of(chunks.deep_view().flatten())),
        r@.len() == 32,
{
    let mut all: Vec<u8> = Vec::new();
    let mut i: usize = 0;
    while i < chunks.len()
        invariant
            i <= chunks@.len(),
            all@ == chunks.deep_view().take(i as int).flatten(),
        decreases chunks@.len() - i,
    {
        let mut j: usize = 0;
        let ghost before = all@;
        while j < chunks[i].len()
            invariant
                i < chunks@.len(),
                j <= chunks@[i as int]@.len(),
                all@ == before + chunks@[i as int]@.take(j as int),
            decreases chunks@[i as int]@.len() - j,
        {
            all.push(chunks[i][j]);
            j += 1;
            proof {
                assert(chunks@[i as int]@.take(j as int) =~= chunks@[i as int]@.take(
                    j - 1 as int,
                ).push(chunks@[i as int]@[j - 1]));
                assert(all@ =~= before + chunks@[i as int]@.take(j as int));
            }
        }
        i += 1;
        proof {
            assert(chunks@[i - 1 as int]@.take(chunks@[i - 1 as int]@.len() as int)
                =~= chunks@[i - 1 as int]@);
            assert(chunks.deep_view().take(i - 1 as int).push(chunks.deep_view()[i - 1 as int])
                =~= chunks.deep_view().take(i as int));
            chunks.deep_view().take(i - 1 as int).lemma_flatten_push(
                chunks.deep_view()[i - 1 as int],
            );
            assert(all@ =~= chunks.deep_view().take(i as int).flatten());
        }
    }
    proof {
        assert(chunks.deep_view().take(chunks@.len() as int) =~= chunks.deep_view());
    }
    md5_hex(&all)
}

} // verus!
