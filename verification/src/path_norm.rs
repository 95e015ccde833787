//! Lexical path handling over UTF-8 byte paths with `/` separators: splitting
//! into components, resolving `.` and `..` without touching the filesystem,
//! and component-wise prefix checks against allowed directories.

use vstd::prelude::*;
use crate::bytes::{bytes_of, join_by, join_vec, split_by, split_vec, vec_eq, vec_extend};

verus! {

use vstd::string::StringSliceAdditionalSpecFns;

/// The path separator byte, `/`.
pub const SLASH: u8 = 47;

/// True when `s` is an absolute path (starts with `/`).
pub open spec fn is_abs(s: Seq<u8>) -> bool {
    s.len() > 0 && s[0] == SLASH
}

/// The chunks of `s` between `/` separators, kept verbatim: empty chunks and
/// `.` chunks included.
pub open spec fn raw_chunks(s: Seq<u8>) -> Seq<Seq<u8>> {
    split_by(s, SLASH)
}

/// A chunk that is a real path component: non-empty and not `.`.
pub open spec fn keep_component(c: Seq<u8>) -> bool {
    c.len() > 0 && c != ".".spec_bytes()
}

/// The real components among `cs`, in order.
pub open spec fn kept_components(cs: Seq<Seq<u8>>) -> Seq<Seq<u8>>
    decreases cs.len(),
{
    if cs.len() == 0 {
        Seq::<Seq<u8>>::empty()
    } else {
        kept_components(cs.drop_last()) + (if keep_component(cs.last()) {
            seq![cs.last()]
        } else {
            Seq::<Seq<u8>>::empty()
        })
    }
}

/// The components of the path `s`: chunks between separators, skipping empty
/// chunks and `.`, keeping `..` verbatim.
pub open spec fn components_of(s: Seq<u8>) -> Seq<Seq<u8>> {
    kept_components(raw_chunks(s))
}

/// One step of lexical normalization: `..` drops the last component collected
/// so far (a no-op at the top), anything else is appended.
pub open spec fn norm_step(acc: Seq<Seq<u8>>, c: Seq<u8>) -> Seq<Seq<u8>> {
    if c == "..".spec_bytes() {
        if acc.len() > 0 {
            acc.drop_last()
        } else {
            acc
        }
    } else {
        acc.push(c)
    }
}

/// Folds `norm_step` over `cs` from the left, starting from `acc`.
pub open spec fn norm_fold(acc: Seq<Seq<u8>>, cs: Seq<Seq<u8>>) -> Seq<Seq<u8>>
    decreases cs.len(),
{
    if cs.len() == 0 {
        acc
    } else {
        norm_fold(norm_step(acc, cs.first()), cs.drop_first())
    }
}

/// The components of `s` after resolving `.` and `..` lexically.
pub open spec fn normalized_components(s: Seq<u8>) -> Seq<Seq<u8>> {
    norm_fold(Seq::<Seq<u8>>::empty(), components_of(s))
}

/// The components joined with `/`, without a leading separator.
pub open spec fn join_components(cs: Seq<Seq<u8>>) -> Seq<u8> {
    join_by(cs, SLASH)
}

/// The textual path with the given components, absolute when `abs`.
pub open spec fn render_path(abs: bool, cs: Seq<Seq<u8>>) -> Seq<u8> {
    if abs {
        seq![SLASH] + join_components(cs)
    } else {
        join_components(cs)
    }
}

/// The lexical normalization of `s`: `.` and `..` resolved without touching
/// the filesystem, separators collapsed, and no trailing separator.
pub open spec fn normalize_spec(s: Seq<u8>) -> Seq<u8> {
    render_path(is_abs(s), normalized_components(s))
}

/// Executable test for an absolute path.
pub fn is_absolute(path: &Vec<u8>) -> (r: bool)
    ensures
        r == is_abs(path@),
{
    path.len() > 0 && path[0] == SLASH
}

/// Split `s` into its chunks between `/` separators, kept verbatim.
fn split_slash(s: &Vec<u8>) -> (r: Vec<Vec<u8>>)
    ensures
        r@.map_values(|c: Vec<u8>| c@) == raw_chunks(s@),
{
    split_vec(s, SLASH)
}

/// The components of `path`: chunks between separators, skipping empty chunks
/// and `.`, keeping `..` verbatim.
pub fn path_components(path: &Vec<u8>) -> (r: Vec<Vec<u8>>)
    ensures
        r@.map_values(|c: Vec<u8>| c@) == components_of(path@),
{
    let chunks = split_slash(path);
    let ghost chunks_view = chunks@.map_values(|c: Vec<u8>| c@);
    let dot = bytes_of(".");
    let mut r: Vec<Vec<u8>> = Vec::new();
    let mut i: usize = 0;
    while i < chunks.len()
        invariant
            i <= chunks.len(),
            chunks_view == chunks@.map_values(|c: Vec<u8>| c@),
            dot@ == ".".spec_bytes(),
            r@.map_values(|c: Vec<u8>| c@) == kept_components(chunks_view.subrange(0, i as int)),
        decreases chunks.len() - i,
    {
        let chunk = &chunks[i];
        if chunk.len() > 0 && !vec_eq(chunk, &dot) {
            r.push(chunk.clone());
        }
        proof {
            assert(chunks_view.subrange(0, i + 1 as int).drop_last() =~= chunks_view.subrange(
                0,
                i as int,
            ));
            assert(chunks_view.subrange(0, i + 1 as int).last() == chunks_view[i as int]);
            assert(r@.map_values(|c: Vec<u8>| c@) =~= kept_components(chunks_view.subrange(
                0,
                i + 1 as int,
            )));
        }
        i += 1;
    }
    proof {
        assert(chunks_view.subrange(0, chunks_view.len() as int) =~= chunks_view);
    }
    r
}

/// Resolve `.` and `..` in a component list, left to right.
pub fn normalize_components(cs: &Vec<Vec<u8>>) -> (r: Vec<Vec<u8>>)
    ensures
        r@.map_values(|c: Vec<u8>| c@) == norm_fold(
            Seq::<Seq<u8>>::empty(),
            cs@.map_values(|c: Vec<u8>| c@),
        ),
{
    let ghost cs_view = cs@.map_values(|c: Vec<u8>| c@);
    let dotdot = bytes_of("..");
    let mut r: Vec<Vec<u8>> = Vec::new();
    proof {
        assert(r@.map_values(|c: Vec<u8>| c@) =~= Seq::<Seq<u8>>::empty());
        assert(cs_view.subrange(0, cs_view.len() as int) =~= cs_view);
    }
    let mut i: usize = 0;
    while i < cs.len()
        invariant
            i <= cs.len(),
            cs_view == cs@.map_values(|c: Vec<u8>| c@),
            dotdot@ == "..".spec_bytes(),
            norm_fold(Seq::<Seq<u8>>::empty(), cs_view) == norm_fold(
                r@.map_values(|c: Vec<u8>| c@),
                cs_view.subrange(i as int, cs_view.len() as int),
            ),
        decreases cs.len() - i,
    {
        let ghost before = r@.map_values(|c: Vec<u8>| c@);
        let ghost rest = cs_view.subrange(i as int, cs_view.len() as int);
        let c = &cs[i];
        if vec_eq(c, &dotdot) {
            if r.len() > 0 {
                r.pop();
            }
        } else {
            r.push(c.clone());
        }
        proof {
            assert(rest.first() == cs_view[i as int]);
            assert(rest.drop_first() =~= cs_view.subrange(i + 1 as int, cs_view.len() as int));
            assert(r@.map_values(|c: Vec<u8>| c@) =~= norm_step(before, cs_view[i as int]));
        }
        i += 1;
    }
    proof {
        assert(cs_view.subrange(cs_view.len() as int, cs_view.len() as int) =~= Seq::<
            Seq<u8>,
        >::empty());
    }
    r
}

/// Render components back to a textual path, absolute when `abs`.
pub fn render_components(abs: bool, cs: &Vec<Vec<u8>>) -> (r: Vec<u8>)
    ensures
        r@ == render_path(abs, cs@.map_values(|c: Vec<u8>| c@)),
{
    let joined = join_vec(cs, SLASH);
    if abs {
        let mut out: Vec<u8> = Vec::new();
        out.push(SLASH);
        vec_extend(&mut out, &joined);
        proof {
            assert(out@ =~= render_path(true, cs@.map_values(|c: Vec<u8>| c@)));
        }
        out
    } else {
        joined
    }
}

/// Normalize a path lexically: resolve `.` and `..` components without
/// touching the filesystem, collapse separators, drop any trailing separator.
pub fn normalize_path(path: &Vec<u8>) -> (r: Vec<u8>)
    ensures
        r@ == normalize_spec(path@),
{
    let abs = is_absolute(path);
    let comps = path_components(path);
    let normed = normalize_components(&comps);
    render_components(abs, &normed)
}

/// The home-directory marker byte, `~`.
pub const TILDE: u8 = 126;

/// `path` with a leading `~` replaced by `home`, when a home is known.
pub open spec fn expand_home_spec(path: Seq<u8>, home: Option<Seq<u8>>) -> Seq<u8> {
    if path.len() > 0 && path[0] == TILDE && home is Some {
        home->0 + path.drop_first()
    } else {
        path
    }
}

/// Expand a leading home-directory marker (`~`) to the home path, when one is
/// known; any other path is returned unchanged.
pub fn expand_home(path: &Vec<u8>, home: &Option<Vec<u8>>) -> (r: Vec<u8>)
    ensures
        r@ == expand_home_spec(path@, match home {
            Some(h) => Some(h@),
            None => None,
        }),
{
    if path.len() > 0 && path[0] == TILDE {
        match home {
            Some(h) => {
                let mut r = h.clone();
                let mut i: usize = 1;
                while i < path.len()
                    invariant
                        1 <= i <= path.len(),
                        r@ == h@ + path@.subrange(1, i as int),
                    decreases path.len() - i,
                {
                    r.push(path[i]);
                    assert(r@ =~= h@ + path@.subrange(1, i + 1 as int));
                    i += 1;
                }
                assert(r@ =~= h@ + path@.drop_first());
                r
            }
            None => path.clone(),
        }
    } else {
        path.clone()
    }
}

/// `base` and `rel` joined with a single separator.
pub open spec fn join_rel(base: Seq<u8>, rel: Seq<u8>) -> Seq<u8> {
    if base.len() > 0 && base.last() == SLASH {
        base + rel
    } else {
        base + seq![SLASH] + rel
    }
}

/// Join a relative path onto a base directory.
pub fn join_path(base: &Vec<u8>, rel: &Vec<u8>) -> (r: Vec<u8>)
    ensures
        r@ == join_rel(base@, rel@),
{
    let mut r = base.clone();
    if !(base.len() > 0 && base[base.len() - 1] == SLASH) {
        r.push(SLASH);
    }
    vec_extend(&mut r, rel);
    proof {
        if base@.len() > 0 && base@.last() == SLASH {
            assert(r@ =~= base@ + rel@);
        } else {
            assert(r@ =~= base@ + seq![SLASH] + rel@);
        }
    }
    r
}

/// The lexical parent of `s`: the path without its final component, rendered
/// in normalized separator form. `None` when `s` has no component to drop.
pub open spec fn parent_of(s: Seq<u8>) -> Option<Seq<u8>> {
    if components_of(s).len() == 0 {
        None
    } else {
        Some(render_path(is_abs(s), components_of(s).drop_last()))
    }
}

/// Compute the lexical parent of `path`, dropping its final component.
pub fn parent_path(path: &Vec<u8>) -> (r: Option<Vec<u8>>)
    ensures
        match r {
            Some(p) => parent_of(path@) == Some(p@),
            None => parent_of(path@) is None,
        },
{
    let abs = is_absolute(path);
    let mut comps = path_components(path);
    if comps.len() == 0 {
        return None;
    }
    let ghost comps_view = comps@.map_values(|c: Vec<u8>| c@);
    comps.pop();
    proof {
        assert(comps@.map_values(|c: Vec<u8>| c@) =~= comps_view.drop_last());
    }
    Some(render_components(abs, &comps))
}

/// True when `p` lies at or below `d`: both are absolute or both relative, and
/// `d`'s components are a prefix of `p`'s.
pub open spec fn path_within(p: Seq<u8>, d: Seq<u8>) -> bool {
    is_abs(p) == is_abs(d) && components_of(p).len() >= components_of(d).len()
        && components_of(p).subrange(0, components_of(d).len() as int) == components_of(d)
}

/// True when `p` lies within some directory of `dirs`.
pub open spec fn within_any(p: Seq<u8>, dirs: Seq<Seq<u8>>) -> bool {
    exists|i: int| 0 <= i < dirs.len() && path_within(p, dirs[i])
}

/// Component-wise prefix test between two component lists.
fn components_prefix(p: &Vec<Vec<u8>>, d: &Vec<Vec<u8>>) -> (r: bool)
    ensures
        r == (p@.len() >= d@.len() && p@.map_values(|c: Vec<u8>| c@).subrange(0, d@.len() as int)
            == d@.map_values(|c: Vec<u8>| c@)),
{
    let ghost p_view = p@.map_values(|c: Vec<u8>| c@);
    let ghost d_view = d@.map_values(|c: Vec<u8>| c@);
    if p.len() < d.len() {
        return false;
    }
    let mut i: usize = 0;
    while i < d.len()
        invariant
            i <= d.len(),
            d@.len() <= p@.len(),
            p_view == p@.map_values(|c: Vec<u8>| c@),
            d_view == d@.map_values(|c: Vec<u8>| c@),
            forall|j: int| 0 <= j < i ==> p_view[j] == d_view[j],
        decreases d.len() - i,
    {
        if !vec_eq(&p[i], &d[i]) {
            assert(p_view.subrange(0, d_view.len() as int)[i as int] != d_view[i as int]);
            return false;
        }
        i += 1;
    }
    assert(p_view.subrange(0, d_view.len() as int) =~= d_view);
    true
}

/// Check whether `path` falls within the boundary of some allowed directory,
/// by component-wise prefix matching.
pub fn is_path_within_allowed_directories(path: &Vec<u8>, allowed_directories: &Vec<Vec<u8>>) -> (r:
    bool)
    ensures
        r == within_any(path@, allowed_directories@.map_values(|d: Vec<u8>| d@)),
{
    let ghost dirs_view = allowed_directories@.map_values(|d: Vec<u8>| d@);
    let p_abs = is_absolute(path);
    let p_comps = path_components(path);
    let mut i: usize = 0;
    while i < allowed_directories.len()
        invariant
            i <= allowed_directories.len(),
            dirs_view == allowed_directories@.map_values(|d: Vec<u8>| d@),
            p_abs == is_abs(path@),
            p_comps@.map_values(|c: Vec<u8>| c@) == components_of(path@),
            forall|j: int| 0 <= j < i ==> !path_within(path@, dirs_view[j]),
        decreases allowed_directories.len() - i,
    {
        let dir = &allowed_directories[i];
        let d_abs = is_absolute(dir);
        let d_comps = path_components(dir);
        if p_abs == d_abs && components_prefix(&p_comps, &d_comps) {
            assert(path_within(path@, dirs_view[i as int]));
            return true;
        }
        assert(!path_within(path@, dirs_view[i as int]));
        i += 1;
    }
    false
}

} // verus!
