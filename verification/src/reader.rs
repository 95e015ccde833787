//! File-content readers: first-N-lines and last-N-lines of a text, and the
//! media response that detects a MIME type and base64-encodes binary data.
//!
//! The surrounding process streams the file in; the line selection and the
//! response construction are verified here.

use vstd::prelude::*;
use crate::bytes::{bytes_of, join_by, join_vec, split_by, split_vec, vec_slice, vec_starts_with};
use crate::edits::{CR, NL};
use crate::responses::{FileContent, ReadFileResponse};

verus! {

use vstd::string::StringSliceAdditionalSpecFns;

/// A line with a single trailing carriage return removed.
pub open spec fn strip_cr(l: Seq<u8>) -> Seq<u8> {
    if l.len() > 0 && l.last() == CR {
        l.drop_last()
    } else {
        l
    }
}

/// The lines of a file as a line-by-line reader yields them: split at `\n`,
/// no final empty line for a trailing newline, one trailing `\r` stripped
/// from each line.
pub open spec fn reader_lines(content: Seq<u8>) -> Seq<Seq<u8>> {
    if content.len() == 0 {
        Seq::<Seq<u8>>::empty()
    } else {
        let raw = if content.last() == NL {
            split_by(content, NL).drop_last()
        } else {
            split_by(content, NL)
        };
        raw.map_values(|l: Seq<u8>| strip_cr(l))
    }
}

/// The first `n` lines of a file, joined with `\n`.
pub open spec fn head_spec(content: Seq<u8>, n: nat) -> Seq<u8> {
    let ls = reader_lines(content);
    let k = if n <= ls.len() {
        n as int
    } else {
        ls.len() as int
    };
    join_by(ls.subrange(0, k), NL)
}

/// The last `n` lines of a file, joined with `\n`.
pub open spec fn tail_spec(content: Seq<u8>, n: nat) -> Seq<u8> {
    let ls = reader_lines(content);
    let k = if n <= ls.len() {
        ls.len() - n
    } else {
        0
    };
    join_by(ls.subrange(k as int, ls.len() as int), NL)
}

fn strip_cr_vec(l: &Vec<u8>) -> (r: Vec<u8>)
    ensures
        r@ == strip_cr(l@),
{
    if l.len() > 0 && l[l.len() - 1] == CR {
        let r = vec_slice(l, 0, l.len() - 1);
        proof {
            assert(l@.subrange(0, l@.len() - 1) =~= l@.drop_last());
        }
        r
    } else {
        l.clone()
    }
}

/// The lines of `content`, as a line-by-line reader yields them.
pub fn reader_lines_vec(content: &Vec<u8>) -> (r: Vec<Vec<u8>>)
    ensures
        r@.map_values(|l: Vec<u8>| l@) == reader_lines(content@),
{
    let mut out: Vec<Vec<u8>> = Vec::new();
    if content.len() == 0 {
        proof {
            assert(out@.map_values(|l: Vec<u8>| l@) =~= reader_lines(content@));
        }
        return out;
    }
    let mut raw = split_vec(content, NL);
    if content[content.len() - 1] == NL {
        proof {
            crate::bytes::lemma_split_by_len(content@, NL);
        }
        raw.pop();
    }
    let ghost raw_view = raw@.map_values(|l: Vec<u8>| l@);
    proof {
        if content@.last() == NL {
            assert(raw_view =~= split_by(content@, NL).drop_last());
        }
    }
    let mut i: usize = 0;
    while i < raw.len()
        invariant
            i <= raw.len(),
            raw_view == raw@.map_values(|l: Vec<u8>| l@),
            out@.len() == i,
            forall|m: int| 0 <= m < i ==> #[trigger] out@[m]@ == strip_cr(raw_view[m]),
        decreases raw.len() - i,
    {
        out.push(strip_cr_vec(&raw[i]));
        i += 1;
    }
    proof {
        assert(out@.map_values(|l: Vec<u8>| l@) =~= reader_lines(content@));
    }
    out
}

fn lines_range(ls: &Vec<Vec<u8>>, a: usize, b: usize) -> (r: Vec<Vec<u8>>)
    requires
        a <= b <= ls@.len(),
    ensures
        r@.map_values(|l: Vec<u8>| l@) == ls@.map_values(|l: Vec<u8>| l@).subrange(
            a as int,
            b as int,
        ),
{
    let mut r: Vec<Vec<u8>> = Vec::new();
    let mut i: usize = a;
    while i < b
        invariant
            a <= i <= b <= ls@.len(),
            r@.len() == i - a,
            forall|m: int| 0 <= m < i - a ==> #[trigger] r@[m]@ == ls@[a + m]@,
        decreases b - i,
    {
        r.push(ls[i].clone());
        i += 1;
    }
    proof {
        assert(r@.map_values(|l: Vec<u8>| l@) =~= ls@.map_values(|l: Vec<u8>| l@).subrange(
            a as int,
            b as int,
        ));
    }
    r
}

/// The first `lines` lines of `content`, joined with `\n`, as a text
/// response. Zero lines give empty text.
pub fn read_file_head(content: &Vec<u8>, lines: usize) -> (r: ReadFileResponse)
    ensures
        r.content matches FileContent::Text(c) && c@ == head_spec(content@, lines as nat),
        r.mime_type@ == "text/plain".spec_bytes(),
{
    let ls = reader_lines_vec(content);
    let k = if lines <= ls.len() {
        lines
    } else {
        ls.len()
    };
    let taken = lines_range(&ls, 0, k);
    let joined = join_vec(&taken, NL);
    ReadFileResponse::text(joined)
}

/// The last `lines` lines of `content`, joined with `\n`, as a text
/// response. Zero lines give empty text.
pub fn read_file_tail(content: &Vec<u8>, lines: usize) -> (r: ReadFileResponse)
    ensures
        r.content matches FileContent::Text(c) && c@ == tail_spec(content@, lines as nat),
        r.mime_type@ == "text/plain".spec_bytes(),
{
    let ls = reader_lines_vec(content);
    let k = if lines <= ls.len() {
        ls.len() - lines
    } else {
        0
    };
    let kept = lines_range(&ls, k, ls.len());
    let joined = join_vec(&kept, NL);
    ReadFileResponse::text(joined)
}

/// The lines a head read holds after being fed `ls` in order: the first
/// lines, with collection stopped once the limit is reached.
pub open spec fn head_state(ls: Seq<Seq<u8>>, limit: nat) -> Seq<Seq<u8>>
    decreases ls.len(),
{
    if ls.len() == 0 {
        Seq::<Seq<u8>>::empty()
    } else {
        let prev = head_state(ls.drop_last(), limit);
        if prev.len() < limit {
            prev.push(ls.last())
        } else {
            prev
        }
    }
}

/// The lines a tail read holds after being fed `ls` in order: a rolling
/// window of the most recent lines, never more than the limit.
pub open spec fn tail_state(ls: Seq<Seq<u8>>, limit: nat) -> Seq<Seq<u8>>
    decreases ls.len(),
{
    if ls.len() == 0 || limit == 0 {
        Seq::<Seq<u8>>::empty()
    } else {
        let prev = tail_state(ls.drop_last(), limit);
        if prev.len() < limit {
            prev.push(ls.last())
        } else {
            prev.drop_first().push(ls.last())
        }
    }
}

/// Law: an incremental head read that stops once full holds exactly the
/// first lines, so feeding a file's lines in order gives the whole-file head
/// selection while consuming no line past the limit.
pub proof fn lemma_head_state_is_prefix(ls: Seq<Seq<u8>>, limit: nat)
    ensures
        head_state(ls, limit) == ls.subrange(
            0,
            if limit <= ls.len() {
                limit as int
            } else {
                ls.len() as int
            },
        ),
    decreases ls.len(),
{
    if ls.len() > 0 {
        lemma_head_state_is_prefix(ls.drop_last(), limit);
        let prev = head_state(ls.drop_last(), limit);
        if prev.len() < limit {
            assert(head_state(ls, limit) =~= ls.subrange(
                0,
                if limit <= ls.len() {
                    limit as int
                } else {
                    ls.len() as int
                },
            ));
        } else {
            assert(head_state(ls, limit) =~= ls.subrange(0, limit as int));
        }
    }
}

/// Law: an incremental tail read over a fixed-capacity rolling window holds
/// exactly the last lines, so feeding a file's lines in order gives the
/// whole-file tail selection while holding at most the limit of lines.
pub proof fn lemma_tail_state_is_suffix(ls: Seq<Seq<u8>>, limit: nat)
    ensures
        tail_state(ls, limit) == ls.subrange(
            if limit <= ls.len() {
                ls.len() - limit
            } else {
                0
            },
            ls.len() as int,
        ),
    decreases ls.len(),
{
    if ls.len() == 0 || limit == 0 {
        assert(tail_state(ls, limit) =~= ls.subrange(
            if limit <= ls.len() {
                ls.len() - limit
            } else {
                0
            },
            ls.len() as int,
        ));
    } else {
        lemma_tail_state_is_suffix(ls.drop_last(), limit);
        let prev = tail_state(ls.drop_last(), limit);
        if prev.len() < limit {
            assert(tail_state(ls, limit) =~= ls.subrange(
                if limit <= ls.len() {
                    ls.len() - limit
                } else {
                    0
                },
                ls.len() as int,
            ));
        } else {
            assert(prev.drop_first().push(ls.last()) =~= ls.subrange(
                ls.len() - limit,
                ls.len() as int,
            ));
        }
    }
}

/// Collects the first lines of a streamed file. The caller feeds one line at
/// a time and stops as soon as `wants_more` is false, so no line past the
/// limit is ever consumed.
pub struct HeadReader {
    lines: Vec<Vec<u8>>,
    limit: usize,
}

impl HeadReader {
    /// The lines collected so far.
    pub closed spec fn spec_lines(&self) -> Seq<Seq<u8>> {
        self.lines@.map_values(|l: Vec<u8>| l@)
    }

    /// The line limit.
    pub closed spec fn spec_limit(&self) -> nat {
        self.limit as nat
    }

    /// Start a head read of up to `limit` lines.
    pub fn new(limit: usize) -> (r: Self)
        ensures
            r.spec_lines() == Seq::<Seq<u8>>::empty(),
            r.spec_limit() == limit as nat,
    {
        let r = HeadReader { lines: Vec::new(), limit };
        proof {
            assert(r.spec_lines() =~= Seq::<Seq<u8>>::empty());
        }
        r
    }

    /// Whether another line is still wanted.
    pub fn wants_more(&self) -> (r: bool)
        ensures
            r == (self.spec_lines().len() < self.spec_limit()),
    {
        self.lines.len() < self.limit
    }

    /// Feed the next line: collected while below the limit, ignored after.
    pub fn push_line(&mut self, line: Vec<u8>)
        ensures
            final(self).spec_limit() == old(self).spec_limit(),
            final(self).spec_lines() == (if old(self).spec_lines().len() < old(self).spec_limit() {
                old(self).spec_lines().push(line@)
            } else {
                old(self).spec_lines()
            }),
    {
        if self.lines.len() < self.limit {
            self.lines.push(line);
        }
    }

    /// The collected lines as a text response, joined with a newline.
    pub fn finish(self) -> (r: ReadFileResponse)
        ensures
            r.content matches FileContent::Text(c) && c@ == join_by(self.spec_lines(), NL),
            r.mime_type@ == "text/plain".spec_bytes(),
    {
        let joined = join_vec(&self.lines, NL);
        ReadFileResponse::text(joined)
    }
}

/// Keeps a rolling window of the most recent lines of a streamed file: at
/// most the limit of lines is held at any time, however long the file.
pub struct TailReader {
    lines: Vec<Vec<u8>>,
    limit: usize,
}

impl TailReader {
    /// The window collected so far.
    pub closed spec fn spec_lines(&self) -> Seq<Seq<u8>> {
        self.lines@.map_values(|l: Vec<u8>| l@)
    }

    /// The window capacity.
    pub closed spec fn spec_limit(&self) -> nat {
        self.limit as nat
    }

    /// Start a tail read of up to `limit` lines.
    pub fn new(limit: usize) -> (r: Self)
        ensures
            r.spec_lines() == Seq::<Seq<u8>>::empty(),
            r.spec_limit() == limit as nat,
    {
        let r = TailReader { lines: Vec::new(), limit };
        proof {
            assert(r.spec_lines() =~= Seq::<Seq<u8>>::empty());
        }
        r
    }

    /// Feed the next line: it enters the window, and the oldest line leaves
    /// once the window is full.
    pub fn push_line(&mut self, line: Vec<u8>)
        ensures
            final(self).spec_limit() == old(self).spec_limit(),
            final(self).spec_lines() == (if old(self).spec_limit() == 0 {
                old(self).spec_lines()
            } else if old(self).spec_lines().len() < old(self).spec_limit() {
                old(self).spec_lines().push(line@)
            } else {
                old(self).spec_lines().drop_first().push(line@)
            }),
            old(self).spec_lines().len() <= old(self).spec_limit() ==> final(self).spec_lines().len()
                <= final(self).spec_limit(),
    {
        if self.limit == 0 {
            return;
        }
        if self.lines.len() >= self.limit {
            let ghost before = self.lines@.map_values(|l: Vec<u8>| l@);
            self.lines.remove(0);
            self.lines.push(line);
            proof {
                assert(self.spec_lines() =~= before.drop_first().push(line@));
            }
        } else {
            self.lines.push(line);
        }
    }

    /// The window as a text response, joined with a newline.
    pub fn finish(self) -> (r: ReadFileResponse)
        ensures
            r.content matches FileContent::Text(c) && c@ == join_by(self.spec_lines(), NL),
            r.mime_type@ == "text/plain".spec_bytes(),
    {
        let joined = join_vec(&self.lines, NL);
        ReadFileResponse::text(joined)
    }
}

/// What the MIME guesser answers for a path (a fixed extension table, with
/// `application/octet-stream` as the fallback).
pub uninterp spec fn mime_of(path: Seq<u8>) -> Seq<u8>;

/// Relies on mime_guess::from_path(..).first_or_octet_stream(): the guessed
/// type is a function of the path text alone.
#[verifier::external_body]
fn guess_mime(path: &Vec<u8>) -> (r: Vec<u8>)
    ensures
        r@ == mime_of(path@),
{
    mime_guess::from_path(String::from_utf8_lossy(path).as_ref())
        .first_or_octet_stream()
        .to_string()
        .into_bytes()
}

/// The standard base64 alphabet character for a six-bit value.
pub open spec fn b64_char(v: nat) -> u8 {
    if v < 26 {
        (65 + v) as u8
    } else if v < 52 {
        (71 + v) as u8
    } else if v < 62 {
        (v - 4) as u8
    } else if v == 62 {
        43u8
    } else {
        47u8
    }
}

/// The padding byte, `=`.
pub open spec fn b64_pad() -> u8 {
    61u8
}

/// Standard base64 with padding: four output characters for every group of
/// up to three input bytes.
pub open spec fn base64_encode(s: Seq<u8>) -> Seq<u8>
    decreases s.len(),
{
    if s.len() == 0 {
        Seq::<u8>::empty()
    } else if s.len() == 1 {
        let b0 = s[0] as nat;
        seq![b64_char(b0 / 4), b64_char(b0 % 4 * 16), b64_pad(), b64_pad()]
    } else if s.len() == 2 {
        let b0 = s[0] as nat;
        let b1 = s[1] as nat;
        seq![b64_char(b0 / 4), b64_char(b0 % 4 * 16 + b1 / 16), b64_char(b1 % 16 * 4), b64_pad()]
    } else {
        let b0 = s[0] as nat;
        let b1 = s[1] as nat;
        let b2 = s[2] as nat;
        seq![
            b64_char(b0 / 4),
            b64_char(b0 % 4 * 16 + b1 / 16),
            b64_char(b1 % 16 * 4 + b2 / 64),
            b64_char(b2 % 64),
        ] + base64_encode(s.subrange(3, s.len() as int))
    }
}

/// Relies on base64's general-purpose engine with the standard alphabet and
/// padding: the encoding defined byte for byte by `base64_encode`.
#[verifier::external_body]
fn base64_encode_bytes(b: &Vec<u8>) -> (r: Vec<u8>)
    ensures
        r@ == base64_encode(b@),
{
    base64::Engine::encode(&base64::engine::general_purpose::STANDARD, b).into_bytes()
}

/// What lossy UTF-8 decoding yields for arbitrary bytes, re-encoded as
/// UTF-8.
pub uninterp spec fn utf8_lossy_of(bytes: Seq<u8>) -> Seq<u8>;

/// Relies on String::from_utf8_lossy: invalid sequences are replaced with
/// the replacement character; valid UTF-8 comes back unchanged.
#[verifier::external_body]
fn utf8_lossy(bytes: &Vec<u8>) -> (r: Vec<u8>)
    ensures
        r@ == utf8_lossy_of(bytes@),
        vstd::utf8::valid_utf8(bytes@) ==> r@ == bytes@,
{
    String::from_utf8_lossy(bytes).into_owned().into_bytes()
}

/// The whole-file text response: the bytes decoded as UTF-8, lossily, and
/// reported as plain text.
pub fn read_entire_file(content: &Vec<u8>) -> (r: ReadFileResponse)
    ensures
        r.content matches FileContent::Text(c) && c@ == utf8_lossy_of(content@),
        vstd::utf8::valid_utf8(content@) ==> (r.content matches FileContent::Text(c) && c@
            == content@),
        r.mime_type@ == "text/plain".spec_bytes(),
{
    ReadFileResponse::text(utf8_lossy(content))
}

impl ReadFileResponse {
    /// Build the response for raw file bytes: the MIME type is guessed from
    /// the path; textual types carry lossily-decoded text, anything else the
    /// base64 encoding of the bytes.
    pub fn new(bytes: Vec<u8>, path: &Vec<u8>) -> (r: Self)
        ensures
            r.mime_type@ == mime_of(path@),
            crate::bytes::starts_with(mime_of(path@), "text/".spec_bytes()) ==> (r.content
                matches FileContent::Text(c) && c@ == utf8_lossy_of(bytes@)),
            !crate::bytes::starts_with(mime_of(path@), "text/".spec_bytes()) ==> (r.content
                matches FileContent::Binary(c) && c@ == base64_encode(bytes@)),
    {
        let mime_type = guess_mime(path);
        let text_prefix = bytes_of("text/");
        if vec_starts_with(&mime_type, &text_prefix) {
            ReadFileResponse { content: FileContent::Text(utf8_lossy(&bytes)), mime_type }
        } else {
            ReadFileResponse { content: FileContent::Binary(base64_encode_bytes(&bytes)), mime_type }
        }
    }
}

} // verus!
