//! The tolerant line-oriented edit applier.
//!
//! Content and edit texts are normalized to `\n` line endings. Each edit is
//! first applied by exact substring replacement; when the text is not found
//! verbatim, a window of whole lines is matched with per-line whitespace
//! trimmed, and the replacement block is re-indented to the site of the match.

use vstd::prelude::*;
use crate::bytes::{join_by, join_vec, split_by, split_vec, vec_extend, vec_slice};
use crate::errors::FileSystemMcpError;

verus! {

use vstd::string::StringSliceAdditionalSpecFns;

/// The line feed byte, `\n`.
pub const NL: u8 = 10;

/// The carriage return byte, `\r`.
pub const CR: u8 = 13;

/// The space byte.
pub const SP: u8 = 32;

/// ASCII whitespace: space, tab, line feed, vertical tab, form feed, carriage
/// return.
pub open spec fn is_ws(b: u8) -> bool {
    b == SP || (9 <= b && b <= 13)
}

/// Executable ASCII whitespace test.
pub fn is_whitespace_byte(b: u8) -> (r: bool)
    ensures
        r == is_ws(b),
{
    b == SP || (9 <= b && b <= 13)
}

/// `s` with every `\r\n` pair replaced by `\n`, scanning left to right.
pub open spec fn normalize_crlf(s: Seq<u8>) -> Seq<u8>
    decreases s.len(),
{
    if s.len() == 0 {
        Seq::<u8>::empty()
    } else if s.len() >= 2 && s[0] == CR && s[1] == NL {
        seq![NL] + normalize_crlf(s.subrange(2, s.len() as int))
    } else {
        seq![s[0]] + normalize_crlf(s.drop_first())
    }
}

/// Normalize line endings: every `\r\n` becomes `\n`.
pub fn normalize_line_endings(s: &Vec<u8>) -> (r: Vec<u8>)
    ensures
        r@ == normalize_crlf(s@),
{
    let mut r: Vec<u8> = Vec::new();
    proof {
        assert(s@.subrange(0, s@.len() as int) =~= s@);
    }
    let mut i: usize = 0;
    while i < s.len()
        invariant
            i <= s.len(),
            normalize_crlf(s@) == r@ + normalize_crlf(s@.subrange(i as int, s@.len() as int)),
        decreases s.len() - i,
    {
        let ghost rest = s@.subrange(i as int, s@.len() as int);
        if s[i] == CR && i + 1 < s.len() && s[i + 1] == NL {
            r.push(NL);
            proof {
                assert(rest.subrange(2, rest.len() as int) =~= s@.subrange(
                    i + 2 as int,
                    s@.len() as int,
                ));
                assert(r@ + normalize_crlf(s@.subrange(i + 2 as int, s@.len() as int))
                    =~= (r@.drop_last() + (seq![NL] + normalize_crlf(
                    s@.subrange(i + 2 as int, s@.len() as int),
                ))));
            }
            i += 2;
        } else {
            r.push(s[i]);
            proof {
                assert(rest.drop_first() =~= s@.subrange(i + 1 as int, s@.len() as int));
                assert(r@ + normalize_crlf(s@.subrange(i + 1 as int, s@.len() as int))
                    =~= (r@.drop_last() + (seq![s@[i as int]] + normalize_crlf(
                    s@.subrange(i + 1 as int, s@.len() as int),
                ))));
            }
            i += 1;
        }
    }
    proof {
        assert(s@.subrange(s@.len() as int, s@.len() as int) =~= Seq::<u8>::empty());
    }
    r
}

/// `s` without leading ASCII whitespace.
pub open spec fn trim_start_spec(s: Seq<u8>) -> Seq<u8>
    decreases s.len(),
{
    if s.len() > 0 && is_ws(s[0]) {
        trim_start_spec(s.drop_first())
    } else {
        s
    }
}

/// `s` without trailing ASCII whitespace.
pub open spec fn trim_end_spec(s: Seq<u8>) -> Seq<u8>
    decreases s.len(),
{
    if s.len() > 0 && is_ws(s.last()) {
        trim_end_spec(s.drop_last())
    } else {
        s
    }
}

/// `s` without surrounding ASCII whitespace.
pub open spec fn trim_spec(s: Seq<u8>) -> Seq<u8> {
    trim_end_spec(trim_start_spec(s))
}

/// True when `s` holds nothing but whitespace (or nothing at all).
pub open spec fn is_blank(s: Seq<u8>) -> bool {
    trim_spec(s).len() == 0
}

/// Strip surrounding ASCII whitespace.
pub fn trim(s: &Vec<u8>) -> (r: Vec<u8>)
    ensures
        r@ == trim_spec(s@),
{
    proof {
        assert(s@.subrange(0, s@.len() as int) =~= s@);
    }
    let mut a: usize = 0;
    while a < s.len() && is_whitespace_byte(s[a])
        invariant
            a <= s.len(),
            trim_start_spec(s@) == trim_start_spec(s@.subrange(a as int, s@.len() as int)),
        decreases s.len() - a,
    {
        proof {
            let rest = s@.subrange(a as int, s@.len() as int);
            assert(rest.drop_first() =~= s@.subrange(a + 1 as int, s@.len() as int));
        }
        a += 1;
    }
    proof {
        let rest = s@.subrange(a as int, s@.len() as int);
        if a < s@.len() {
            assert(!is_ws(rest[0]));
        }
        assert(trim_start_spec(rest) == rest);
    }
    let mut b: usize = s.len();
    while b > a && is_whitespace_byte(s[b - 1])
        invariant
            a <= b <= s.len(),
            trim_start_spec(s@) == s@.subrange(a as int, s@.len() as int),
            trim_end_spec(s@.subrange(a as int, s@.len() as int)) == trim_end_spec(
                s@.subrange(a as int, b as int),
            ),
        decreases b,
    {
        proof {
            let cur = s@.subrange(a as int, b as int);
            assert(cur.last() == s@[b - 1 as int]);
            assert(cur.drop_last() =~= s@.subrange(a as int, b - 1 as int));
        }
        b -= 1;
    }
    proof {
        let cur = s@.subrange(a as int, b as int);
        if b > a {
            assert(cur.last() == s@[b - 1 as int]);
            assert(!is_ws(cur.last()));
        }
        assert(trim_end_spec(cur) == cur);
    }
    vec_slice(s, a, b)
}

/// The number of leading whitespace bytes of `s`.
pub open spec fn ws_prefix_len(s: Seq<u8>) -> nat
    decreases s.len(),
{
    if s.len() > 0 && is_ws(s[0]) {
        1 + ws_prefix_len(s.drop_first())
    } else {
        0
    }
}

pub proof fn lemma_ws_prefix_len_le(s: Seq<u8>)
    ensures
        ws_prefix_len(s) <= s.len(),
    decreases s.len(),
{
    if s.len() > 0 && is_ws(s[0]) {
        lemma_ws_prefix_len_le(s.drop_first());
    }
}

/// The leading whitespace of `s` (its indentation).
pub open spec fn leading_ws(s: Seq<u8>) -> Seq<u8> {
    s.subrange(0, ws_prefix_len(s) as int)
}

/// The length of the leading whitespace of `s`.
pub fn leading_ws_len(s: &Vec<u8>) -> (r: usize)
    ensures
        r == ws_prefix_len(s@),
{
    proof {
        assert(s@.subrange(0, s@.len() as int) =~= s@);
    }
    let mut a: usize = 0;
    while a < s.len() && is_whitespace_byte(s[a])
        invariant
            a <= s.len(),
            ws_prefix_len(s@) == a + ws_prefix_len(s@.subrange(a as int, s@.len() as int)),
        decreases s.len() - a,
    {
        proof {
            let rest = s@.subrange(a as int, s@.len() as int);
            assert(rest.drop_first() =~= s@.subrange(a + 1 as int, s@.len() as int));
        }
        a += 1;
    }
    proof {
        let rest = s@.subrange(a as int, s@.len() as int);
        if a < s@.len() {
            assert(!is_ws(rest[0]));
        }
        assert(ws_prefix_len(rest) == 0);
    }
    a
}

/// True when `pat` occurs in `content` at offset `i`.
pub open spec fn match_at(content: Seq<u8>, pat: Seq<u8>, i: int) -> bool {
    0 <= i && i + pat.len() <= content.len() && content.subrange(i, i + pat.len()) == pat
}

/// True when `pat` occurs somewhere in `content`.
pub open spec fn has_match(content: Seq<u8>, pat: Seq<u8>) -> bool {
    exists|i: int| match_at(content, pat, i)
}

/// The offset of the first occurrence of `pat` in `content` (meaningful only
/// when one exists).
pub open spec fn first_match(content: Seq<u8>, pat: Seq<u8>) -> int {
    choose|i: int|
        match_at(content, pat, i) && forall|j: int| 0 <= j < i ==> !match_at(content, pat, j)
}

/// A found leftmost occurrence pins `first_match` down.
pub proof fn lemma_first_match_is(content: Seq<u8>, pat: Seq<u8>, i: int)
    requires
        match_at(content, pat, i),
        forall|j: int| 0 <= j < i ==> !match_at(content, pat, j),
    ensures
        has_match(content, pat),
        first_match(content, pat) == i,
{
    assert(match_at(content, pat, i) && forall|j: int| 0 <= j < i ==> !match_at(content, pat, j));
    let k = first_match(content, pat);
    assert(match_at(content, pat, k) && forall|j: int| 0 <= j < k ==> !match_at(content, pat, j));
    if k < i {
        assert(!match_at(content, pat, k));
        assert(false);
    }
    if i < k {
        assert(!match_at(content, pat, i));
        assert(false);
    }
}

/// Test whether `pat` occurs at offset `i` of `content`.
fn eq_at(content: &Vec<u8>, pat: &Vec<u8>, i: usize) -> (r: bool)
    requires
        i + pat@.len() <= content@.len(),
    ensures
        r == match_at(content@, pat@, i as int),
{
    let n = content.len();
    let mut j: usize = 0;
    while j < pat.len()
        invariant
            j <= pat.len(),
            n == content@.len(),
            i + pat@.len() <= content@.len(),
            forall|k: int| 0 <= k < j ==> content@[i + k] == pat@[k],
        decreases pat.len() - j,
    {
        assert(i + j < n);
        if content[i + j] != pat[j] {
            assert(content@.subrange(i as int, i + pat@.len())[j as int] != pat@[j as int]);
            return false;
        }
        j += 1;
    }
    assert(content@.subrange(i as int, i + pat@.len()) =~= pat@);
    true
}

/// Find the first occurrence of `pat` in `content`.
pub fn find_first(content: &Vec<u8>, pat: &Vec<u8>) -> (r: Option<usize>)
    ensures
        r matches Some(i) ==> has_match(content@, pat@) && first_match(content@, pat@) == i as int
            && match_at(content@, pat@, i as int),
        r is None ==> !has_match(content@, pat@),
{
    if pat.len() > content.len() {
        assert(!has_match(content@, pat@));
        return None;
    }
    let bound = content.len() - pat.len();
    let mut i: usize = 0;
    while i < bound
        invariant
            i <= bound,
            bound == content@.len() - pat@.len(),
            forall|j: int| 0 <= j < i ==> !match_at(content@, pat@, j),
        decreases bound - i,
    {
        if eq_at(content, pat, i) {
            proof {
                lemma_first_match_is(content@, pat@, i as int);
            }
            return Some(i);
        }
        i += 1;
    }
    if eq_at(content, pat, bound) {
        proof {
            lemma_first_match_is(content@, pat@, bound as int);
        }
        return Some(bound);
    }
    assert(!has_match(content@, pat@));
    None
}

/// `content` with the byte range `[i, i + cut)` replaced by `insert`.
pub open spec fn spliced(content: Seq<u8>, i: int, cut: int, insert: Seq<u8>) -> Seq<u8> {
    content.subrange(0, i) + insert + content.subrange(i + cut, content.len() as int)
}

/// Replace the byte range `[i, i + cut)` of `content` with `insert`.
pub fn splice(content: &Vec<u8>, i: usize, cut: usize, insert: &Vec<u8>) -> (r: Vec<u8>)
    requires
        i + cut <= content@.len(),
    ensures
        r@ == spliced(content@, i as int, cut as int, insert@),
{
    let n = content.len();
    assert(n == content@.len());
    let mut r = vec_slice(content, 0, i);
    vec_extend(&mut r, insert);
    let tail = vec_slice(content, i + cut, n);
    vec_extend(&mut r, &tail);
    r
}

/// Strip leading ASCII whitespace.
pub fn trim_start(s: &Vec<u8>) -> (r: Vec<u8>)
    ensures
        r@ == trim_start_spec(s@),
{
    proof {
        assert(s@.subrange(0, s@.len() as int) =~= s@);
    }
    let mut a: usize = 0;
    while a < s.len() && is_whitespace_byte(s[a])
        invariant
            a <= s.len(),
            trim_start_spec(s@) == trim_start_spec(s@.subrange(a as int, s@.len() as int)),
        decreases s.len() - a,
    {
        proof {
            let rest = s@.subrange(a as int, s@.len() as int);
            assert(rest.drop_first() =~= s@.subrange(a + 1 as int, s@.len() as int));
        }
        a += 1;
    }
    proof {
        let rest = s@.subrange(a as int, s@.len() as int);
        if a < s@.len() {
            assert(!is_ws(rest[0]));
        }
        assert(trim_start_spec(rest) == rest);
    }
    vec_slice(s, a, s.len())
}

/// The leading whitespace of `s`.
pub fn leading_ws_of(s: &Vec<u8>) -> (r: Vec<u8>)
    ensures
        r@ == leading_ws(s@),
{
    let n = leading_ws_len(s);
    proof {
        lemma_ws_prefix_len_le(s@);
    }
    vec_slice(s, 0, n)
}

/// The lines of a normalized text, split at `\n`.
pub open spec fn lines_of(s: Seq<u8>) -> Seq<Seq<u8>> {
    split_by(s, NL)
}

/// Split a text into its lines at `\n`.
pub fn split_lines(s: &Vec<u8>) -> (r: Vec<Vec<u8>>)
    ensures
        r@.map_values(|l: Vec<u8>| l@) == lines_of(s@),
{
    split_vec(s, NL)
}

/// True when the `old_lines` block matches the window of `content_lines`
/// starting at `i`, comparing each line with surrounding whitespace trimmed.
pub open spec fn window_match_at(
    content_lines: Seq<Seq<u8>>,
    old_lines: Seq<Seq<u8>>,
    i: int,
) -> bool {
    0 <= i && i + old_lines.len() <= content_lines.len() && forall|j: int|
        0 <= j < old_lines.len() ==> trim_spec(old_lines[j]) == trim_spec(content_lines[i + j])
}

/// True when some window of `content_lines` matches `old_lines`.
pub open spec fn has_window(content_lines: Seq<Seq<u8>>, old_lines: Seq<Seq<u8>>) -> bool {
    exists|i: int| window_match_at(content_lines, old_lines, i)
}

/// The topmost matching window (meaningful only when one exists).
pub open spec fn first_window(content_lines: Seq<Seq<u8>>, old_lines: Seq<Seq<u8>>) -> int {
    choose|i: int|
        window_match_at(content_lines, old_lines, i) && forall|j: int|
            0 <= j < i ==> !window_match_at(content_lines, old_lines, j)
}

/// A found topmost window pins `first_window` down.
pub proof fn lemma_first_window_is(
    content_lines: Seq<Seq<u8>>,
    old_lines: Seq<Seq<u8>>,
    i: int,
)
    requires
        window_match_at(content_lines, old_lines, i),
        forall|j: int| 0 <= j < i ==> !window_match_at(content_lines, old_lines, j),
    ensures
        has_window(content_lines, old_lines),
        first_window(content_lines, old_lines) == i,
{
    assert(window_match_at(content_lines, old_lines, i) && forall|j: int|
        0 <= j < i ==> !window_match_at(content_lines, old_lines, j));
    let k = first_window(content_lines, old_lines);
    assert(window_match_at(content_lines, old_lines, k) && forall|j: int|
        0 <= j < k ==> !window_match_at(content_lines, old_lines, j));
    if k < i {
        assert(!window_match_at(content_lines, old_lines, k));
        assert(false);
    }
    if i < k {
        assert(!window_match_at(content_lines, old_lines, i));
        assert(false);
    }
}

/// Test whether the block matches the window at `i`, line by line with
/// whitespace trimmed.
fn window_matches(cl: &Vec<Vec<u8>>, ol: &Vec<Vec<u8>>, i: usize) -> (r: bool)
    requires
        i + ol@.len() <= cl@.len(),
    ensures
        r == window_match_at(
            cl@.map_values(|l: Vec<u8>| l@),
            ol@.map_values(|l: Vec<u8>| l@),
            i as int,
        ),
{
    let ghost cl_view = cl@.map_values(|l: Vec<u8>| l@);
    let ghost ol_view = ol@.map_values(|l: Vec<u8>| l@);
    let n = cl.len();
    let mut j: usize = 0;
    while j < ol.len()
        invariant
            j <= ol.len(),
            n == cl@.len(),
            i + ol@.len() <= cl@.len(),
            cl_view == cl@.map_values(|l: Vec<u8>| l@),
            ol_view == ol@.map_values(|l: Vec<u8>| l@),
            forall|k: int| 0 <= k < j ==> trim_spec(ol_view[k]) == trim_spec(cl_view[i + k]),
        decreases ol.len() - j,
    {
        assert(i + j < n);
        let to = trim(&ol[j]);
        let tc = trim(&cl[i + j]);
        if !crate::bytes::vec_eq(&to, &tc) {
            assert(trim_spec(ol_view[j as int]) != trim_spec(cl_view[i + j as int]));
            return false;
        }
        j += 1;
    }
    true
}

/// Find the topmost window of `cl` that matches `ol` with whitespace trimmed.
pub fn find_first_window(cl: &Vec<Vec<u8>>, ol: &Vec<Vec<u8>>) -> (r: Option<usize>)
    ensures
        r matches Some(i) ==> has_window(
            cl@.map_values(|l: Vec<u8>| l@),
            ol@.map_values(|l: Vec<u8>| l@),
        ) && first_window(cl@.map_values(|l: Vec<u8>| l@), ol@.map_values(|l: Vec<u8>| l@))
            == i as int && window_match_at(
            cl@.map_values(|l: Vec<u8>| l@),
            ol@.map_values(|l: Vec<u8>| l@),
            i as int,
        ),
        r is None ==> !has_window(
            cl@.map_values(|l: Vec<u8>| l@),
            ol@.map_values(|l: Vec<u8>| l@),
        ),
{
    let ghost cl_view = cl@.map_values(|l: Vec<u8>| l@);
    let ghost ol_view = ol@.map_values(|l: Vec<u8>| l@);
    if ol.len() > cl.len() {
        assert(!has_window(cl_view, ol_view));
        return None;
    }
    let bound = cl.len() - ol.len();
    let mut i: usize = 0;
    while i < bound
        invariant
            i <= bound,
            bound == cl@.len() - ol@.len(),
            cl_view == cl@.map_values(|l: Vec<u8>| l@),
            ol_view == ol@.map_values(|l: Vec<u8>| l@),
            forall|j: int| 0 <= j < i ==> !window_match_at(cl_view, ol_view, j),
        decreases bound - i,
    {
        if window_matches(cl, ol, i) {
            proof {
                lemma_first_window_is(cl_view, ol_view, i as int);
            }
            return Some(i);
        }
        i += 1;
    }
    if window_matches(cl, ol, bound) {
        proof {
            lemma_first_window_is(cl_view, ol_view, bound as int);
        }
        return Some(bound);
    }
    assert(!has_window(cl_view, ol_view));
    None
}

/// `n` spaces.
pub open spec fn spaces(n: nat) -> Seq<u8> {
    Seq::new(n, |i: int| SP)
}

fn spaces_vec(n: usize) -> (r: Vec<u8>)
    ensures
        r@ == spaces(n as nat),
{
    let mut r: Vec<u8> = Vec::new();
    let mut i: usize = 0;
    while i < n
        invariant
            i <= n,
            r@ == spaces(i as nat),
        decreases n - i,
    {
        r.push(SP);
        assert(r@ =~= spaces((i + 1) as nat));
        i += 1;
    }
    r
}

/// The indentation of the first non-blank line of the replacement block, or
/// nothing when every line is blank.
pub open spec fn base_indent(new_lines: Seq<Seq<u8>>) -> Seq<u8>
    decreases new_lines.len(),
{
    if new_lines.len() == 0 {
        Seq::<u8>::empty()
    } else if !is_blank(new_lines.first()) {
        leading_ws(new_lines.first())
    } else {
        base_indent(new_lines.drop_first())
    }
}

/// One line of the rebuilt replacement block: the first line takes the
/// original indentation of the matched site; a blank line stays empty; any
/// other line keeps its indentation relative to the block's base indentation
/// (clamped at zero), appended after the original indentation.
pub open spec fn reindent_line(line: Seq<u8>, j: int, orig_indent: Seq<u8>, base_len: nat) -> Seq<
    u8,
> {
    if j == 0 {
        orig_indent + trim_start_spec(line)
    } else if is_blank(line) {
        Seq::<u8>::empty()
    } else {
        let li = ws_prefix_len(line);
        let rel = if li >= base_len {
            (li - base_len) as nat
        } else {
            0
        };
        orig_indent + spaces(rel) + trim_start_spec(line)
    }
}

/// The rebuilt replacement block for a fuzzy match site.
pub open spec fn reindented_lines(new_lines: Seq<Seq<u8>>, orig_indent: Seq<u8>) -> Seq<Seq<u8>> {
    Seq::new(
        new_lines.len(),
        |j: int| reindent_line(new_lines[j], j, orig_indent, base_indent(new_lines).len()),
    )
}

/// The length of the base indentation of the replacement block.
fn base_indent_len(new_lines: &Vec<Vec<u8>>) -> (r: usize)
    ensures
        r == base_indent(new_lines@.map_values(|l: Vec<u8>| l@)).len(),
{
    let ghost nl_view = new_lines@.map_values(|l: Vec<u8>| l@);
    proof {
        assert(nl_view.subrange(0, nl_view.len() as int) =~= nl_view);
    }
    let mut j: usize = 0;
    while j < new_lines.len()
        invariant
            j <= new_lines.len(),
            nl_view == new_lines@.map_values(|l: Vec<u8>| l@),
            base_indent(nl_view) == base_indent(nl_view.subrange(j as int, nl_view.len() as int)),
        decreases new_lines.len() - j,
    {
        proof {
            let rest = nl_view.subrange(j as int, nl_view.len() as int);
            assert(rest.first() == nl_view[j as int]);
            assert(rest.drop_first() =~= nl_view.subrange(j + 1 as int, nl_view.len() as int));
        }
        let t = trim(&new_lines[j]);
        if t.len() != 0 {
            proof {
                assert(base_indent(nl_view) == leading_ws(nl_view[j as int]));
                lemma_ws_prefix_len_le(nl_view[j as int]);
            }
            return leading_ws_len(&new_lines[j]);
        }
        j += 1;
    }
    proof {
        assert(nl_view.subrange(nl_view.len() as int, nl_view.len() as int).len() == 0);
    }
    0
}

/// Rebuild the replacement block `new_lines` for a site whose first matched
/// line had indentation `orig_indent`.
pub fn reindent_block(new_lines: &Vec<Vec<u8>>, orig_indent: &Vec<u8>) -> (r: Vec<Vec<u8>>)
    ensures
        r@.map_values(|l: Vec<u8>| l@) == reindented_lines(
            new_lines@.map_values(|l: Vec<u8>| l@),
            orig_indent@,
        ),
{
    let ghost nl_view = new_lines@.map_values(|l: Vec<u8>| l@);
    let base_len = base_indent_len(new_lines);
    // rebuild each line
    let mut r: Vec<Vec<u8>> = Vec::new();
    let mut k: usize = 0;
    while k < new_lines.len()
        invariant
            k <= new_lines.len(),
            nl_view == new_lines@.map_values(|l: Vec<u8>| l@),
            base_len == base_indent(nl_view).len(),
            r@.len() == k,
            forall|m: int| 0 <= m < k ==> r@.map_values(|l: Vec<u8>| l@)[m] == reindent_line(
                nl_view[m],
                m,
                orig_indent@,
                base_indent(nl_view).len(),
            ),
        decreases new_lines.len() - k,
    {
        let line = &new_lines[k];
        let ghost prev = r@;
        if k == 0 {
            let mut built = orig_indent.clone();
            let rest = trim_start(line);
            vec_extend(&mut built, &rest);
            r.push(built);
        } else {
            let t = trim(line);
            if t.len() == 0 {
                r.push(Vec::new());
                proof {
                    assert(r@.last()@ =~= Seq::<u8>::empty());
                }
            } else {
                let li = leading_ws_len(line);
                let rel: usize = if li >= base_len {
                    li - base_len
                } else {
                    0
                };
                let mut built = orig_indent.clone();
                let sp = spaces_vec(rel);
                vec_extend(&mut built, &sp);
                let rest = trim_start(line);
                vec_extend(&mut built, &rest);
                r.push(built);
            }
        }
        proof {
            assert forall|m: int| 0 <= m < k + 1 implies r@.map_values(|l: Vec<u8>| l@)[m]
                == reindent_line(nl_view[m], m, orig_indent@, base_indent(nl_view).len()) by {
                if m < k {
                    assert(r@[m] == prev[m]);
                    assert(prev.map_values(|l: Vec<u8>| l@)[m] == reindent_line(
                        nl_view[m],
                        m,
                        orig_indent@,
                        base_indent(nl_view).len(),
                    ));
                }
            }
        }
        k += 1;
    }
    proof {
        assert(r@.map_values(|l: Vec<u8>| l@) =~= reindented_lines(nl_view, orig_indent@));
    }
    r
}

/// Copy of the line range `[a, b)`.
fn lines_slice(cs: &Vec<Vec<u8>>, a: usize, b: usize) -> (r: Vec<Vec<u8>>)
    requires
        a <= b <= cs@.len(),
    ensures
        r@.map_values(|l: Vec<u8>| l@) == cs@.map_values(|l: Vec<u8>| l@).subrange(
            a as int,
            b as int,
        ),
{
    let mut r: Vec<Vec<u8>> = Vec::new();
    let mut i: usize = a;
    while i < b
        invariant
            a <= i <= b <= cs@.len(),
            r@.len() == i - a,
            forall|j: int| 0 <= j < i - a ==> #[trigger] r@[j]@ == cs@[a + j]@,
        decreases b - i,
    {
        r.push(cs[i].clone());
        i += 1;
    }
    proof {
        assert(r@.map_values(|l: Vec<u8>| l@) =~= cs@.map_values(|l: Vec<u8>| l@).subrange(
            a as int,
            b as int,
        ));
    }
    r
}

/// Append the lines of `src` to `dst`.
fn lines_extend(dst: &mut Vec<Vec<u8>>, src: &Vec<Vec<u8>>)
    ensures
        final(dst)@.map_values(|l: Vec<u8>| l@) == old(dst)@.map_values(|l: Vec<u8>| l@)
            + src@.map_values(|l: Vec<u8>| l@),
{
    let mut i: usize = 0;
    while i < src.len()
        invariant
            i <= src.len(),
            dst@.len() == old(dst)@.len() + i,
            forall|j: int| 0 <= j < old(dst)@.len() ==> #[trigger] dst@[j]@ == old(dst)@[j]@,
            forall|j: int| 0 <= j < i ==> #[trigger] dst@[old(dst)@.len() + j]@ == src@[j]@,
        decreases src.len() - i,
    {
        dst.push(src[i].clone());
        i += 1;
    }
    proof {
        let m = dst@.map_values(|l: Vec<u8>| l@);
        let target = old(dst)@.map_values(|l: Vec<u8>| l@) + src@.map_values(|l: Vec<u8>| l@);
        assert forall|j: int| 0 <= j < m.len() implies m[j] == target[j] by {
            if j < old(dst)@.len() {
                assert(dst@[j]@ == old(dst)@[j]@);
            } else {
                let jj = j - old(dst)@.len();
                assert(dst@[old(dst)@.len() + jj]@ == src@[jj]@);
            }
        }
        assert(m =~= target);
    }
}

/// The content rebuilt after a fuzzy match of `old` (meaningful only when a
/// window matches): the matched lines are replaced by the re-indented
/// replacement block.
pub open spec fn fuzzy_result(content: Seq<u8>, old: Seq<u8>, new: Seq<u8>) -> Seq<u8> {
    let cl = lines_of(content);
    let ol = lines_of(old);
    let i = first_window(cl, ol);
    join_by(
        cl.subrange(0, i) + reindented_lines(lines_of(new), leading_ws(cl[i])) + cl.subrange(
            i + ol.len(),
            cl.len() as int,
        ),
        NL,
    )
}

/// The outcome of one edit on normalized content: exact replacement of the
/// first occurrence when `old` occurs verbatim; otherwise replacement of the
/// topmost fuzzy-matched line window; `None` when neither pass matches.
#[verifier::opaque]
pub open spec fn apply_edit_spec(content: Seq<u8>, old: Seq<u8>, new: Seq<u8>) -> Option<Seq<u8>> {
    if has_match(content, old) {
        Some(spliced(content, first_match(content, old), old.len() as int, new))
    } else if has_window(lines_of(content), lines_of(old)) {
        Some(fuzzy_result(content, old, new))
    } else {
        None
    }
}

/// Apply one edit to normalized content: an exact pass, then a fuzzy
/// line-window pass with re-indentation. `None` when neither pass matches.
#[verifier::rlimit(50)]
pub fn apply_edit(content: &Vec<u8>, old_text: &Vec<u8>, new_text: &Vec<u8>) -> (r: Option<
    Vec<u8>,
>)
    ensures
        r matches Some(c) ==> apply_edit_spec(content@, old_text@, new_text@) == Some(c@),
        r is None ==> apply_edit_spec(content@, old_text@, new_text@) is None,
{
    proof {
        reveal(apply_edit_spec);
    }
    match find_first(content, old_text) {
        Some(i) => {
            let c = splice(content, i, old_text.len(), new_text);
            Some(c)
        }
        None => {
            let cl = split_lines(content);
            let ol = split_lines(old_text);
            let ghost cl_view = cl@.map_values(|l: Vec<u8>| l@);
            let ghost ol_view = ol@.map_values(|l: Vec<u8>| l@);
            match find_first_window(&cl, &ol) {
                Some(i) => {
                    proof {
                        crate::bytes::lemma_split_by_len(old_text@, NL);
                        assert(ol_view.len() >= 1);
                        assert(i + ol_view.len() <= cl_view.len());
                    }
                    let orig_indent = leading_ws_of(&cl[i]);
                    let nl = split_lines(new_text);
                    let block = reindent_block(&nl, &orig_indent);
                    let mut out = lines_slice(&cl, 0, i);
                    lines_extend(&mut out, &block);
                    let tail = lines_slice(&cl, i + ol.len(), cl.len());
                    lines_extend(&mut out, &tail);
                    let joined = join_vec(&out, NL);
                    proof {
                        assert(out@.map_values(|l: Vec<u8>| l@) =~= cl_view.subrange(0, i as int)
                            + reindented_lines(lines_of(new_text@), leading_ws(cl_view[i as int]))
                            + cl_view.subrange(i + ol_view.len(), cl_view.len() as int));
                        assert(joined@ == fuzzy_result(content@, old_text@, new_text@));
                    }
                    Some(joined)
                }
                None => None,
            }
        }
    }
}

/// The views of an edit list.
pub open spec fn edit_views(edits: Seq<crate::requests::EditOperation>) -> Seq<(Seq<u8>, Seq<u8>)> {
    edits.map_values(|e: crate::requests::EditOperation| e@)
}

/// The outcome of applying the edits in order, each against the output of the
/// previous one, with each edit's texts normalized first: the final content,
/// or the index of the first edit that matched nowhere.
pub open spec fn apply_edits_spec(content: Seq<u8>, edits: Seq<(Seq<u8>, Seq<u8>)>) -> Result<
    Seq<u8>,
    int,
>
    decreases edits.len(),
{
    if edits.len() == 0 {
        Ok(content)
    } else {
        match apply_edit_spec(
            content,
            normalize_crlf(edits.first().0),
            normalize_crlf(edits.first().1),
        ) {
            Some(c) => match apply_edits_spec(c, edits.drop_first()) {
                Ok(f) => Ok(f),
                Err(k) => Err(k + 1),
            },
            None => Err(0),
        }
    }
}

/// The error for an edit that matched nowhere: it names the failing edit's
/// index and its unmatched text.
fn edit_failure_error(path: &Vec<u8>, old_text: &Vec<u8>, k: usize) -> (e: FileSystemMcpError)
    ensures
        e matches FileSystemMcpError::ValidationError { message, path: epath, operation, data }
            && message@ == "Could not find exact match for edit".spec_bytes() && epath@ == path@
            && operation@ == "apply_edit".spec_bytes() && data@.len() == 3 && data@[0].0@
            == "error".spec_bytes() && data@[0].1@ == "No matching text found".spec_bytes()
            && data@[1].0@ == "old_text".spec_bytes() && data@[1].1@ == old_text@ && data@[2].0@
            == "edit_index".spec_bytes() && data@[2].1@ == crate::bytes::dec_bytes(k as nat),
{
    let mut data: Vec<(Vec<u8>, Vec<u8>)> = Vec::new();
    data.push((crate::bytes::bytes_of("error"), crate::bytes::bytes_of("No matching text found")));
    data.push((crate::bytes::bytes_of("old_text"), old_text.clone()));
    data.push((crate::bytes::bytes_of("edit_index"), crate::bytes::u64_to_dec(k as u64)));
    FileSystemMcpError::ValidationError {
        message: crate::bytes::bytes_of("Could not find exact match for edit"),
        path: path.clone(),
        operation: crate::bytes::bytes_of("apply_edit"),
        data,
    }
}

/// Apply an ordered list of edits to file content (line endings normalized
/// first), strictly in sequence: each edit operates on the output of the
/// previous one. When some edit matches nowhere, the whole operation fails
/// with a validation error naming the failing edit's index and text, and no
/// partial result is produced.
#[verifier::rlimit(50)]
pub fn apply_file_edits(
    content: &Vec<u8>,
    edits: &Vec<crate::requests::EditOperation>,
    path: &Vec<u8>,
) -> (r: Result<Vec<u8>, FileSystemMcpError>)
    ensures
        r matches Ok(c) ==> apply_edits_spec(normalize_crlf(content@), edit_views(edits@))
            == Ok::<Seq<u8>, int>(c@),
        r matches Err(e) ==> (apply_edits_spec(normalize_crlf(content@), edit_views(edits@))
            matches Err(k) && 0 <= k < edits@.len() && (e
            matches FileSystemMcpError::ValidationError { message, path: epath, operation, data }
            && message@ == "Could not find exact match for edit".spec_bytes() && epath@ == path@
            && operation@ == "apply_edit".spec_bytes() && data@.len() == 3 && data@[0].0@
            == "error".spec_bytes() && data@[0].1@ == "No matching text found".spec_bytes()
            && data@[1].0@ == "old_text".spec_bytes() && data@[1].1@ == edits@[k]@.0
            && data@[2].0@ == "edit_index".spec_bytes() && data@[2].1@ == crate::bytes::dec_bytes(
            k as nat,
        ))),
{
    let ghost evs = edit_views(edits@);
    let ghost norm0 = normalize_crlf(content@);
    let mut cur = normalize_line_endings(content);
    proof {
        assert(evs.subrange(0, evs.len() as int) =~= evs);
    }
    let mut k: usize = 0;
    while k < edits.len()
        invariant
            k <= edits.len(),
            evs == edit_views(edits@),
            norm0 == normalize_crlf(content@),
            (apply_edits_spec(cur@, evs.subrange(k as int, evs.len() as int)) matches Ok(c)
                ==> apply_edits_spec(norm0, evs) == Ok::<Seq<u8>, int>(c)),
            (apply_edits_spec(cur@, evs.subrange(k as int, evs.len() as int)) matches Err(j)
                ==> apply_edits_spec(norm0, evs) == Err::<Seq<u8>, int>(j + k)),
        decreases edits.len() - k,
    {
        let ghost rest = evs.subrange(k as int, evs.len() as int);
        proof {
            assert(rest.first() == evs[k as int]);
            assert(evs[k as int] == edits@[k as int]@);
            assert(rest.drop_first() =~= evs.subrange(k + 1 as int, evs.len() as int));
        }
        let e = &edits[k];
        let old_n = normalize_line_endings(e.old_text());
        let new_n = normalize_line_endings(e.new_text());
        let ghost prev_cur = cur@;
        match apply_edit(&cur, &old_n, &new_n) {
            Some(c) => {
                cur = c;
                proof {
                    assert(apply_edit_spec(
                        prev_cur,
                        normalize_crlf(rest.first().0),
                        normalize_crlf(rest.first().1),
                    ) == Some(cur@));
                    let tail_res = apply_edits_spec(cur@, evs.subrange(k + 1 as int, evs.len() as int));
                    match tail_res {
                        Ok(f) => {
                            assert(apply_edits_spec(prev_cur, rest) == Ok::<Seq<u8>, int>(f));
                        }
                        Err(j) => {
                            assert(apply_edits_spec(prev_cur, rest) == Err::<Seq<u8>, int>(j + 1));
                        }
                    }
                }
            }
            None => {
                proof {
                    assert(apply_edits_spec(cur@, rest) == Err::<Seq<u8>, int>(0));
                    assert(apply_edits_spec(norm0, evs) == Err::<Seq<u8>, int>(k as int));
                }
                return Err(edit_failure_error(path, e.old_text(), k));
            }
        }
        k += 1;
    }
    proof {
        assert(evs.subrange(evs.len() as int, evs.len() as int).len() == 0);
        assert(apply_edits_spec(cur@, evs.subrange(evs.len() as int, evs.len() as int))
            == Ok::<Seq<u8>, int>(cur@));
    }
    Ok(cur)
}

/// Law: the exact pass is preferred over the fuzzy pass. Whenever the edit's
/// text occurs verbatim in the content, the edit is the exact replacement of
/// the first occurrence, whatever a fuzzy line match would have found.
pub proof fn lemma_exact_replace_preferred(content: Seq<u8>, old_text: Seq<u8>, new_text: Seq<u8>)
    requires
        has_match(content, old_text),
    ensures
        apply_edit_spec(content, old_text, new_text) == Some(
            spliced(content, first_match(content, old_text), old_text.len() as int, new_text),
        ),
{
    reveal(apply_edit_spec);
}

/// Law: a fuzzy-matched replacement block preserves indentation. Its first
/// line takes over the original indentation of the matched block's first
/// line; each later non-blank line keeps its indentation relative to the
/// replacement text's own base indentation, clamped at zero, after that
/// original indentation; blank lines stay empty.
pub proof fn lemma_reindent_preserves_indentation(
    new_lines: Seq<Seq<u8>>,
    orig_indent: Seq<u8>,
    j: int,
)
    requires
        0 <= j < new_lines.len(),
    ensures
        j == 0 ==> reindented_lines(new_lines, orig_indent)[0] == orig_indent + trim_start_spec(
            new_lines[0],
        ),
        j > 0 && is_blank(new_lines[j]) ==> reindented_lines(new_lines, orig_indent)[j] == Seq::<
            u8,
        >::empty(),
        j > 0 && !is_blank(new_lines[j]) ==> reindented_lines(new_lines, orig_indent)[j]
            == orig_indent + spaces(
            (if ws_prefix_len(new_lines[j]) >= base_indent(new_lines).len() {
                (ws_prefix_len(new_lines[j]) - base_indent(new_lines).len()) as nat
            } else {
                0
            }),
        ) + trim_start_spec(new_lines[j]),
{
}

} // verus!
