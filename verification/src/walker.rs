//! Directory tree building and recursive search over an enumerated
//! directory snapshot, with glob-based exclusion.
//!
//! The surrounding process enumerates the filesystem and hands the entries
//! over as plain values; every decision — which entries are pruned, which
//! paths match — is made and verified here.

use vstd::prelude::*;
use crate::bytes::{bytes_of, vec_extend};
use crate::errors::FileSystemMcpError;
use crate::globs::{
    any_glob_matches, augmented_excludes, build_exclude_set, build_include_free_set,
    builder_patterns, compiled_globs, glob_error_text, glob_new, glob_ok, glob_set_build,
    glob_set_builder_add, glob_set_builder_new, glob_set_is_match, glob_set_patterns,
    globset_builds,
};
use crate::path_norm::SLASH;

verus! {

use vstd::string::StringSliceAdditionalSpecFns;

/// A directory entry as enumerated by the caller, with its subtree.
pub struct RawNode {
    pub name: Vec<u8>,
    pub is_dir: bool,
    pub children: Vec<RawNode>,
}

/// One node of the reported directory tree: `children` is present exactly
/// for directories.
pub struct TreeEntry {
    pub name: Vec<u8>,
    pub entry_type: Vec<u8>,
    pub children: Option<Vec<TreeEntry>>,
}

/// The root-relative path of a child entry.
pub open spec fn child_rel(parent_rel: Seq<u8>, name: Seq<u8>) -> Seq<u8> {
    if parent_rel.len() == 0 {
        name
    } else {
        parent_rel + seq![SLASH] + name
    }
}

/// True when the entry is excluded: some pattern matches its root-relative
/// path or its bare name.
pub open spec fn excluded_entry(pats: Seq<Seq<u8>>, rel: Seq<u8>, name: Seq<u8>) -> bool {
    any_glob_matches(pats, rel) || any_glob_matches(pats, name)
}

/// The type label of a tree entry.
pub open spec fn entry_type_text(is_dir: bool) -> Seq<u8> {
    if is_dir {
        "[DIR]".spec_bytes()
    } else {
        "[FILE]".spec_bytes()
    }
}

/// The reported entry for one surviving node: its name, its type label, and
/// (for a directory) its pruned subtree.
pub open spec fn tree_entry_ok(node: RawNode, pats: Seq<Seq<u8>>, rel: Seq<u8>, out: TreeEntry) -> bool
    decreases node,
{
    &&& out.name@ == node.name@
    &&& out.entry_type@ == entry_type_text(node.is_dir)
    &&& if node.is_dir {
        out.children matches Some(cs) && tree_children_ok(node.children@, pats, rel, cs@)
    } else {
        out.children is None
    }
}

/// The reported entries for a node list: an excluded node contributes
/// nothing (its entire subtree with it); every other node contributes its
/// entry, in order.
pub open spec fn tree_children_ok(
    nodes: Seq<RawNode>,
    pats: Seq<Seq<u8>>,
    parent_rel: Seq<u8>,
    out: Seq<TreeEntry>,
) -> bool
    decreases nodes,
{
    if nodes.len() == 0 {
        out.len() == 0
    } else {
        let node = nodes.last();
        let rel = child_rel(parent_rel, node.name@);
        if excluded_entry(pats, rel, node.name@) {
            tree_children_ok(nodes.drop_last(), pats, parent_rel, out)
        } else {
            out.len() >= 1 && tree_entry_ok(node, pats, rel, out.last()) && tree_children_ok(
                nodes.drop_last(),
                pats,
                parent_rel,
                out.drop_last(),
            )
        }
    }
}

/// The nodes of a list that survive exclusion.
pub open spec fn kept_nodes(nodes: Seq<RawNode>, pats: Seq<Seq<u8>>, parent_rel: Seq<u8>) -> Seq<
    RawNode,
>
    decreases nodes,
{
    if nodes.len() == 0 {
        Seq::<RawNode>::empty()
    } else {
        let node = nodes.last();
        let rel = child_rel(parent_rel, node.name@);
        kept_nodes(nodes.drop_last(), pats, parent_rel) + (if excluded_entry(pats, rel, node.name@) {
            Seq::<RawNode>::empty()
        } else {
            seq![node]
        })
    }
}

/// Exclusion prunes exactly: the reported entries are, in order, the
/// surviving nodes — an excluded entry (and with it its whole subtree) is
/// absent while its siblings keep their places.
pub proof fn lemma_tree_prunes_excluded(
    nodes: Seq<RawNode>,
    pats: Seq<Seq<u8>>,
    parent_rel: Seq<u8>,
    out: Seq<TreeEntry>,
)
    requires
        tree_children_ok(nodes, pats, parent_rel, out),
    ensures
        out.len() == kept_nodes(nodes, pats, parent_rel).len(),
        forall|k: int| 0 <= k < out.len() ==> #[trigger] out[k].name@ == kept_nodes(
            nodes,
            pats,
            parent_rel,
        )[k].name@,
    decreases nodes,
{
    if nodes.len() > 0 {
        let node = nodes.last();
        let rel = child_rel(parent_rel, node.name@);
        if excluded_entry(pats, rel, node.name@) {
            lemma_tree_prunes_excluded(nodes.drop_last(), pats, parent_rel, out);
        } else {
            lemma_tree_prunes_excluded(nodes.drop_last(), pats, parent_rel, out.drop_last());
            let kept = kept_nodes(nodes, pats, parent_rel);
            assert(kept.last() == node);
            assert(tree_entry_ok(node, pats, rel, out.last()));
            assert(out.last().name@ == node.name@);
            assert forall|k: int| 0 <= k < out.len() implies #[trigger] out[k].name@
                == kept[k].name@ by {
                if k < out.len() - 1 {
                    assert(out[k] == out.drop_last()[k]);
                    assert(kept[k] == kept_nodes(nodes.drop_last(), pats, parent_rel)[k]);
                } else {
                    assert(k == out.len() - 1);
                    assert(kept.len() == out.len());
                    assert(out[k] == out.last());
                    assert(kept[k] == kept.last());
                }
            }
        }
    }
}

/// The patterns a compiled exclude set matches, or none at all.
pub open spec fn excl_pats(excl: Option<globset::GlobSet>) -> Seq<Seq<u8>> {
    match excl {
        Some(gs) => glob_set_patterns(gs),
        None => Seq::<Seq<u8>>::empty(),
    }
}

fn child_rel_path(parent_rel: &Vec<u8>, name: &Vec<u8>) -> (r: Vec<u8>)
    ensures
        r@ == child_rel(parent_rel@, name@),
{
    if parent_rel.len() == 0 {
        name.clone()
    } else {
        let mut r = parent_rel.clone();
        r.push(SLASH);
        vec_extend(&mut r, name);
        proof {
            assert(r@ =~= parent_rel@ + seq![SLASH] + name@);
        }
        r
    }
}

/// Build the pruned tree of `nodes` against an already-compiled exclude set,
/// with `parent_rel` the root-relative path of the enclosing directory.
pub fn directory_tree_filtered(
    nodes: &Vec<RawNode>,
    excl: &Option<globset::GlobSet>,
    parent_rel: &Vec<u8>,
) -> (r: Vec<TreeEntry>)
    ensures
        tree_children_ok(nodes@, excl_pats(*excl), parent_rel@, r@),
    decreases nodes@,
{
    let ghost pats = excl_pats(*excl);
    let mut out: Vec<TreeEntry> = Vec::new();
    let mut i: usize = 0;
    while i < nodes.len()
        invariant
            i <= nodes.len(),
            pats == excl_pats(*excl),
            tree_children_ok(nodes@.subrange(0, i as int), pats, parent_rel@, out@),
        decreases nodes@.len() - i,
    {
        let node = &nodes[i];
        let rel = child_rel_path(parent_rel, &node.name);
        let is_excluded = match excl {
            Some(gs) => {
                let m1 = glob_set_is_match(gs, &rel);
                let m2 = glob_set_is_match(gs, &node.name);
                m1 || m2
            }
            None => false,
        };
        let ghost prev_out = out@;
        if !is_excluded {
            let children = if node.is_dir {
                Some(directory_tree_filtered(&node.children, excl, &rel))
            } else {
                None
            };
            let entry_type = if node.is_dir {
                bytes_of("[DIR]")
            } else {
                bytes_of("[FILE]")
            };
            out.push(TreeEntry { name: node.name.clone(), entry_type, children });
        }
        proof {
            let prefix = nodes@.subrange(0, i + 1 as int);
            assert(prefix.last() == nodes@[i as int]);
            assert(prefix.drop_last() =~= nodes@.subrange(0, i as int));
            if !excluded_entry(pats, child_rel(parent_rel@, nodes@[i as int].name@), nodes@[i as int].name@) {
                assert(out@.last() == out@[out@.len() - 1]);
                assert(out@.drop_last() =~= prev_out);
                assert(tree_entry_ok(
                    nodes@[i as int],
                    pats,
                    child_rel(parent_rel@, nodes@[i as int].name@),
                    out@.last(),
                ));
            }
        }
        i += 1;
    }
    proof {
        assert(nodes@.subrange(0, nodes@.len() as int) =~= nodes@);
    }
    out
}

/// The exclude patterns a tree or search walk effectively applies: the
/// compiled set's patterns when it builds, and nothing otherwise.
pub open spec fn effective_excludes(pats: Seq<Seq<u8>>) -> Seq<Seq<u8>> {
    if globset_builds(pats) {
        pats
    } else {
        Seq::<Seq<u8>>::empty()
    }
}

/// Build the recursive directory tree of `nodes`, pruning every entry that
/// matches one of `exclude_patterns` (each registered both as given and with
/// a `**/` prefix, so it matches at any depth). In the one case that the
/// compiled exclude set cannot be built, nothing is pruned.
pub fn directory_tree(nodes: &Vec<RawNode>, exclude_patterns: &Vec<Vec<u8>>) -> (r: Vec<TreeEntry>)
    ensures
        tree_children_ok(
            nodes@,
            effective_excludes(augmented_excludes(exclude_patterns@.map_values(|p: Vec<u8>| p@))),
            Seq::<u8>::empty(),
            r@,
        ),
{
    let excl = if exclude_patterns.len() == 0 {
        None
    } else {
        build_exclude_set(exclude_patterns)
    };
    let ghost pv = exclude_patterns@.map_values(|p: Vec<u8>| p@);
    proof {
        if exclude_patterns@.len() == 0 {
            assert(augmented_excludes(pv) =~= Seq::<Seq<u8>>::empty());
        }
    }
    let root_rel: Vec<u8> = Vec::new();
    directory_tree_filtered(nodes, &excl, &root_rel)
}

/// The absolute paths reported by a search of the subtree `nodes`, whose
/// enclosing directory has root-relative path `parent_rel` under the
/// searched root `root`, in enumeration order. An entry whose relative path
/// matches the exclude set is skipped along with its whole subtree; every
/// other directory is descended into, and an entry is reported when some
/// include pattern matches its relative path.
pub open spec fn search_spec(
    nodes: Seq<RawNode>,
    wanted: Seq<Seq<u8>>,
    excl: Seq<Seq<u8>>,
    parent_rel: Seq<u8>,
    root: Seq<u8>,
) -> Seq<Seq<u8>>
    decreases nodes,
{
    if nodes.len() == 0 {
        Seq::<Seq<u8>>::empty()
    } else {
        let node = nodes.last();
        let rel = child_rel(parent_rel, node.name@);
        search_spec(nodes.drop_last(), wanted, excl, parent_rel, root) + (if any_glob_matches(
            excl,
            rel,
        ) {
            Seq::<Seq<u8>>::empty()
        } else {
            (if any_glob_matches(wanted, rel) {
                seq![crate::path_norm::join_rel(root, rel)]
            } else {
                Seq::<Seq<u8>>::empty()
            }) + (if node.is_dir {
                search_spec(node.children@, wanted, excl, rel, root)
            } else {
                Seq::<Seq<u8>>::empty()
            })
        })
    }
}

/// Search the subtree `nodes` against a built include set and an
/// already-compiled exclude set.
pub fn search_filtered(
    nodes: &Vec<RawNode>,
    include_set: &globset::GlobSet,
    excl: &Option<globset::GlobSet>,
    parent_rel: &Vec<u8>,
    root: &Vec<u8>,
) -> (r: Vec<Vec<u8>>)
    ensures
        r@.map_values(|p: Vec<u8>| p@) == search_spec(
            nodes@,
            glob_set_patterns(*include_set),
            excl_pats(*excl),
            parent_rel@,
            root@,
        ),
    decreases nodes@,
{
    let ghost pats = excl_pats(*excl);
    let ghost pat = glob_set_patterns(*include_set);
    let mut out: Vec<Vec<u8>> = Vec::new();
    proof {
        assert(out@.map_values(|p: Vec<u8>| p@) =~= Seq::<Seq<u8>>::empty());
    }
    let mut i: usize = 0;
    while i < nodes.len()
        invariant
            i <= nodes.len(),
            pats == excl_pats(*excl),
            pat == glob_set_patterns(*include_set),
            out@.map_values(|p: Vec<u8>| p@) == search_spec(
                nodes@.subrange(0, i as int),
                pat,
                pats,
                parent_rel@,
                root@,
            ),
        decreases nodes@.len() - i,
    {
        let node = &nodes[i];
        let rel = child_rel_path(parent_rel, &node.name);
        let is_excluded = match excl {
            Some(gs) => glob_set_is_match(gs, &rel),
            None => false,
        };
        let ghost before = out@.map_values(|p: Vec<u8>| p@);
        if !is_excluded {
            if glob_set_is_match(include_set, &rel) {
                out.push(crate::path_norm::join_path(root, &rel));
            }
            let ghost after_match = out@.map_values(|p: Vec<u8>| p@);
            proof {
                if any_glob_matches(pat, child_rel(parent_rel@, nodes@[i as int].name@)) {
                    assert(after_match =~= before + seq![
                        crate::path_norm::join_rel(
                            root@,
                            child_rel(parent_rel@, nodes@[i as int].name@),
                        ),
                    ]);
                } else {
                    assert(after_match =~= before);
                }
            }
            if node.is_dir {
                let sub = search_filtered(&node.children, include_set, excl, &rel, root);
                let mut k: usize = 0;
                let ghost before_sub = out@.map_values(|p: Vec<u8>| p@);
                while k < sub.len()
                    invariant
                        k <= sub@.len(),
                        out@.len() == before_sub.len() + k,
                        forall|m: int| 0 <= m < before_sub.len() ==> #[trigger] out@[m]@
                            == before_sub[m],
                        forall|m: int| 0 <= m < k ==> #[trigger] out@[before_sub.len() + m]@
                            == sub@[m]@,
                    decreases sub.len() - k,
                {
                    out.push(sub[k].clone());
                    k += 1;
                }
                proof {
                    let m2 = out@.map_values(|p: Vec<u8>| p@);
                    let target = before_sub + sub@.map_values(|p: Vec<u8>| p@);
                    assert(m2.len() == target.len());
                    assert forall|t: int| 0 <= t < m2.len() implies m2[t] == target[t] by {
                        if t < before_sub.len() {
                            assert(out@[t]@ == before_sub[t]);
                        } else {
                            let mm = t - before_sub.len();
                            assert(out@[before_sub.len() + mm]@ == sub@[mm]@);
                        }
                    }
                    assert(m2 =~= target);
                }
            }
        }
        proof {
            let prefix = nodes@.subrange(0, i + 1 as int);
            assert(prefix.last() == nodes@[i as int]);
            assert(prefix.drop_last() =~= nodes@.subrange(0, i as int));
            assert(out@.map_values(|p: Vec<u8>| p@) =~= search_spec(
                prefix,
                pat,
                pats,
                parent_rel@,
                root@,
            ));
        }
        i += 1;
    }
    proof {
        assert(nodes@.subrange(0, nodes@.len() as int) =~= nodes@);
    }
    out
}

/// Search an enumerated directory tree: report the absolute path of every
/// entry whose root-relative path matches `pattern`, skipping excluded
/// entries together with their subtrees. An include pattern that does not
/// compile, or whose matcher cannot be built, is a validation error; in the
/// one case that the exclude set cannot be built, nothing is excluded.
pub fn search_files(
    nodes: &Vec<RawNode>,
    path: &Vec<u8>,
    pattern: &Vec<u8>,
    exclude_patterns: &Vec<Vec<u8>>,
) -> (r: Result<Vec<Vec<u8>>, FileSystemMcpError>)
    ensures
        r is Ok <==> glob_ok(pattern@) && globset_builds(seq![pattern@]),
        r matches Ok(list) ==> list@.map_values(|p: Vec<u8>| p@) == search_spec(
            nodes@,
            seq![pattern@],
            effective_excludes(compiled_globs(exclude_patterns@.map_values(|p: Vec<u8>| p@))),
            Seq::<u8>::empty(),
            path@,
        ),
        r matches Err(e) ==> (e matches FileSystemMcpError::ValidationError {
            message,
            path: epath,
            operation,
            data,
        } && message@ == (if !glob_ok(pattern@) {
            "Invalid search pattern: ".spec_bytes() + glob_error_text(pattern@)
        } else {
            "Invalid search pattern".spec_bytes()
        }) && epath@ == path@ && operation@ == "search_files".spec_bytes() && data@.len() == 2
            && data@[0].0@ == "error".spec_bytes() && data@[0].1@
            == "Invalid glob pattern".spec_bytes() && data@[1].0@ == "pattern".spec_bytes()
            && data@[1].1@ == pattern@),
{
    let compiled = match glob_new(pattern) {
        Ok(g) => g,
        Err(detail) => {
            let mut message = bytes_of("Invalid search pattern: ");
            vec_extend(&mut message, &detail);
            return Err(search_pattern_error(path, pattern, message));
        }
    };
    let mut include_builder = glob_set_builder_new();
    glob_set_builder_add(&mut include_builder, compiled);
    proof {
        assert(builder_patterns(include_builder) =~= seq![pattern@]);
    }
    let include_set = match glob_set_build(&include_builder) {
        Ok(s) => s,
        Err(_) => {
            return Err(search_pattern_error(path, pattern, bytes_of("Invalid search pattern")));
        }
    };
    let excl = if exclude_patterns.len() == 0 {
        None
    } else {
        build_include_free_set(exclude_patterns)
    };
    let ghost epv = compiled_globs(exclude_patterns@.map_values(|p: Vec<u8>| p@));
    proof {
        if exclude_patterns@.len() == 0 {
            assert(epv =~= Seq::<Seq<u8>>::empty());
        }
        assert(excl_pats(excl) == effective_excludes(epv));
    }
    let root_rel: Vec<u8> = Vec::new();
    Ok(search_filtered(nodes, &include_set, &excl, &root_rel, path))
}

/// The validation error for an unusable search pattern.
fn search_pattern_error(path: &Vec<u8>, pattern: &Vec<u8>, message: Vec<u8>) -> (e:
    FileSystemMcpError)
    ensures
        e matches FileSystemMcpError::ValidationError {
            message: m,
            path: epath,
            operation,
            data,
        } && m@ == message@ && epath@ == path@ && operation@ == "search_files".spec_bytes()
            && data@.len() == 2 && data@[0].0@ == "error".spec_bytes() && data@[0].1@
            == "Invalid glob pattern".spec_bytes() && data@[1].0@ == "pattern".spec_bytes()
            && data@[1].1@ == pattern@,
{
    let mut data: Vec<(Vec<u8>, Vec<u8>)> = Vec::new();
    data.push((bytes_of("error"), bytes_of("Invalid glob pattern")));
    data.push((bytes_of("pattern"), pattern.clone()));
    FileSystemMcpError::ValidationError {
        message,
        path: path.clone(),
        operation: bytes_of("search_files"),
        data,
    }
}

} // verus!