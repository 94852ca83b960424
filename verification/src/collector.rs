//! Workspace collection: partitions the walked entries of a project tree
//! into the three Collected Items sets — leaf directories to mirror, files
//! to instrument, and files to mirror verbatim — with the sets pairwise
//! disjoint over sources, every destination derived from the source's path
//! relative to the project root, and no instrumented file below a mirrored
//! directory.

use vstd::prelude::*;

use crate::classifier::{
    should_copy_or_link_directory, should_instrument_file, spec_should_instrument,
    spec_should_mirror_dir,
};
use crate::paths::{
    compute_dest_path, extension_of, is_path_ancestor, last_component, spec_dest_path,
    spec_extension, spec_is_ancestor, spec_last_component,
};

verus! {

/// One entry met by the walk: its absolute path, whether it is a
/// directory, the composed ignore matcher's verdict on it, and its size.
pub struct WalkEntry {
    /// The entry's absolute path.
    pub path: String,
    /// Whether the entry is a directory.
    pub is_dir: bool,
    /// Whether the ignore matcher (the `.gitignore` chain and any
    /// `.arianaignore`) matched the entry.
    pub ignored: bool,
    /// The file's size in bytes; 0 for a directory.
    pub size: u64,
}

/// The three-way partition of the walked tree.
pub struct CollectedItems {
    /// Leaf directories to mirror by symlink or copy: `(src, dest)`.
    pub directories_to_link_or_copy: Vec<(String, String)>,
    /// Files eligible for the instrumentation transform: `(src, dest)`.
    pub files_to_instrument: Vec<(String, String)>,
    /// Files to mirror verbatim: `(src, dest)`.
    pub files_to_link_or_copy: Vec<(String, String)>,
}

/// A file entry that will be instrumented: not a directory, not ignored
/// (an ignored file is demoted to plain mirroring), and instrumentable by
/// name, extension and size.
pub open spec fn spec_instrument_entry(e: WalkEntry) -> bool {
    &&& !e.is_dir
    &&& !e.ignored
    &&& spec_should_instrument(
        spec_last_component(e.path@),
        spec_extension(spec_last_component(e.path@)),
        e.size,
    )
}

/// A file entry that will be mirrored verbatim.
pub open spec fn spec_plain_file_entry(e: WalkEntry) -> bool {
    &&& !e.is_dir
    &&& !spec_instrument_entry(e)
}

/// A directory entry that is a mirror candidate by name.
pub open spec fn spec_mirror_candidate(e: WalkEntry) -> bool {
    &&& e.is_dir
    &&& spec_should_mirror_dir(spec_last_component(e.path@))
}

/// Some walked file lies strictly below the directory path `d`.
pub open spec fn spec_has_file_descendant(es: Seq<WalkEntry>, d: Seq<char>) -> bool {
    exists|j: int| 0 <= j < es.len() && !es[j].is_dir && spec_is_ancestor(d, es[j].path@)
}

/// A directory entry that is mirrored: a candidate by name whose subtree
/// holds no separately walked file — a leaf of the partition.
pub open spec fn spec_mirror_dir_entry(es: Seq<WalkEntry>, e: WalkEntry) -> bool {
    &&& spec_mirror_candidate(e)
    &&& !spec_has_file_descendant(es, e.path@)
}

/// The source paths of the entries to instrument, in walk order.
pub open spec fn spec_instrument_srcs(es: Seq<WalkEntry>) -> Seq<Seq<char>>
    decreases es.len(),
{
    if es.len() == 0 {
        Seq::empty()
    } else if spec_instrument_entry(es[0]) {
        seq![es[0].path@] + spec_instrument_srcs(es.drop_first())
    } else {
        spec_instrument_srcs(es.drop_first())
    }
}

/// The source paths of the files mirrored verbatim, in walk order.
pub open spec fn spec_plain_file_srcs(es: Seq<WalkEntry>) -> Seq<Seq<char>>
    decreases es.len(),
{
    if es.len() == 0 {
        Seq::empty()
    } else if spec_plain_file_entry(es[0]) {
        seq![es[0].path@] + spec_plain_file_srcs(es.drop_first())
    } else {
        spec_plain_file_srcs(es.drop_first())
    }
}

/// The source paths of the mirrored leaf directories, in walk order.
/// `all` is the whole walk, against which file descendants are sought.
pub open spec fn spec_mirror_dir_srcs(all: Seq<WalkEntry>, es: Seq<WalkEntry>) -> Seq<Seq<char>>
    decreases es.len(),
{
    if es.len() == 0 {
        Seq::empty()
    } else if spec_mirror_dir_entry(all, es[0]) {
        seq![es[0].path@] + spec_mirror_dir_srcs(all, es.drop_first())
    } else {
        spec_mirror_dir_srcs(all, es.drop_first())
    }
}

/// The source paths of a list of `(src, dest)` pairs.
pub open spec fn spec_pair_srcs(ps: Seq<(String, String)>) -> Seq<Seq<char>> {
    ps.map_values(|p: (String, String)| p.0@)
}

/// Every destination of the pairs is the mirror destination of its source.
pub open spec fn spec_dests_ok(ps: Seq<(String, String)>, root: Seq<char>, ariana: Seq<char>) -> bool {
    forall|k: int| 0 <= k < ps.len()
        ==> (#[trigger] ps[k]).1@ == spec_dest_path(ps[k].0@, root, ariana)
}

/// All entry paths are distinct, as a filesystem walk guarantees.
pub open spec fn spec_distinct_paths(es: Seq<WalkEntry>) -> bool {
    forall|i: int, j: int| 0 <= i < j < es.len()
        ==> (#[trigger] es[i]).path@ != (#[trigger] es[j]).path@
}

/// All entries lie strictly below the project root.
pub open spec fn spec_under_root(es: Seq<WalkEntry>, root: Seq<char>) -> bool {
    forall|i: int| 0 <= i < es.len() ==> spec_is_ancestor(root, (#[trigger] es[i]).path@)
}

/// Decides whether some walked file lies strictly below the directory `d`.
fn has_file_descendant(entries: &Vec<WalkEntry>, d: &String) -> (r: bool)
    ensures
        r == spec_has_file_descendant(entries@, d@),
{
    let mut j: usize = 0;
    while j < entries.len()
        invariant
            j <= entries@.len(),
            forall|k: int| 0 <= k < j
                ==> !(!(#[trigger] entries@[k]).is_dir && spec_is_ancestor(d@, entries@[k].path@)),
        decreases entries@.len() - j,
    {
        if !entries[j].is_dir && is_path_ancestor(d.as_str(), entries[j].path.as_str()) {
            assert(spec_has_file_descendant(entries@, d@));
            return true;
        }
        j = j + 1;
    }
    false
}

/// Classifies one file entry.
fn instrument_entry(e: &WalkEntry) -> (r: bool)
    requires
        !e.is_dir,
    ensures
        r == spec_instrument_entry(*e),
{
    if e.ignored {
        return false;
    }
    let name = last_component(e.path.as_str());
    let ext = extension_of(name.as_str());
    let r = match ext {
        Some(ref s) => should_instrument_file(name.as_str(), Some(s.as_str()), e.size),
        None => should_instrument_file(name.as_str(), None, e.size),
    };
    r
}

/// Partitions the walked entries into the three Collected Items sets and
/// pairs every source with its destination under `ariana_dir`.
pub fn collect_items(entries: &Vec<WalkEntry>, project_root: &str, ariana_dir: &str) -> (r:
    CollectedItems)
    requires
        spec_under_root(entries@, project_root@),
    ensures
        spec_pair_srcs(r.files_to_instrument@) == spec_instrument_srcs(entries@),
        spec_pair_srcs(r.files_to_link_or_copy@) == spec_plain_file_srcs(entries@),
        spec_pair_srcs(r.directories_to_link_or_copy@) == spec_mirror_dir_srcs(
            entries@,
            entries@,
        ),
        spec_dests_ok(r.files_to_instrument@, project_root@, ariana_dir@),
        spec_dests_ok(r.files_to_link_or_copy@, project_root@, ariana_dir@),
        spec_dests_ok(r.directories_to_link_or_copy@, project_root@, ariana_dir@),
{
    let mut files_to_instrument: Vec<(String, String)> = Vec::new();
    let mut files_to_link_or_copy: Vec<(String, String)> = Vec::new();
    let mut directories_to_link_or_copy: Vec<(String, String)> = Vec::new();
    let mut i: usize = 0;
    proof {
        assert(entries@.skip(0) =~= entries@);
        assert(spec_pair_srcs(files_to_instrument@) =~= Seq::<Seq<char>>::empty());
        assert(spec_pair_srcs(files_to_link_or_copy@) =~= Seq::<Seq<char>>::empty());
        assert(spec_pair_srcs(directories_to_link_or_copy@) =~= Seq::<Seq<char>>::empty());
        assert(spec_pair_srcs(files_to_instrument@) + spec_instrument_srcs(entries@)
            =~= spec_instrument_srcs(entries@));
        assert(spec_pair_srcs(files_to_link_or_copy@) + spec_plain_file_srcs(entries@)
            =~= spec_plain_file_srcs(entries@));
        assert(spec_pair_srcs(directories_to_link_or_copy@)
            + spec_mirror_dir_srcs(entries@, entries@)
            =~= spec_mirror_dir_srcs(entries@, entries@));
    }
    while i < entries.len()
        invariant
            i <= entries@.len(),
            spec_under_root(entries@, project_root@),
            spec_pair_srcs(files_to_instrument@) + spec_instrument_srcs(entries@.skip(i as int))
                == spec_instrument_srcs(entries@),
            spec_pair_srcs(files_to_link_or_copy@) + spec_plain_file_srcs(entries@.skip(i as int))
                == spec_plain_file_srcs(entries@),
            spec_pair_srcs(directories_to_link_or_copy@)
                + spec_mirror_dir_srcs(entries@, entries@.skip(i as int))
                == spec_mirror_dir_srcs(entries@, entries@),
            spec_dests_ok(files_to_instrument@, project_root@, ariana_dir@),
            spec_dests_ok(files_to_link_or_copy@, project_root@, ariana_dir@),
            spec_dests_ok(directories_to_link_or_copy@, project_root@, ariana_dir@),
        decreases entries@.len() - i,
    {
        let ghost pre = entries@.skip(i as int);
        proof {
            assert(pre[0] == entries@[i as int]);
            assert(pre.drop_first() =~= entries@.skip(i + 1));
        }
        let e = &entries[i];
        if e.is_dir {
            let name = last_component(e.path.as_str());
            let ghost f0 = spec_pair_srcs(files_to_instrument@);
            let ghost p0 = spec_pair_srcs(files_to_link_or_copy@);
            let ghost d0 = spec_pair_srcs(directories_to_link_or_copy@);
            if should_copy_or_link_directory(name.as_str()) && !has_file_descendant(
                entries,
                &e.path,
            ) {
                let dest = compute_dest_path(e.path.as_str(), project_root, ariana_dir);
                directories_to_link_or_copy.push((e.path.clone(), dest));
                proof {
                    assert(spec_mirror_dir_entry(entries@, pre[0]));
                    assert(spec_pair_srcs(directories_to_link_or_copy@)
                        =~= d0.push(entries@[i as int].path@));
                    assert(spec_pair_srcs(directories_to_link_or_copy@)
                        + spec_mirror_dir_srcs(entries@, entries@.skip(i + 1))
                        =~= d0 + spec_mirror_dir_srcs(entries@, pre));
                }
            } else {
                proof {
                    assert(!spec_mirror_dir_entry(entries@, pre[0]));
                    assert(spec_mirror_dir_srcs(entries@, pre)
                        == spec_mirror_dir_srcs(entries@, entries@.skip(i + 1)));
                }
            }
            proof {
                assert(spec_instrument_srcs(pre) == spec_instrument_srcs(entries@.skip(i + 1)));
                assert(spec_plain_file_srcs(pre) == spec_plain_file_srcs(entries@.skip(i + 1)));
            }
        } else {
            let ghost f0 = spec_pair_srcs(files_to_instrument@);
            let ghost p0 = spec_pair_srcs(files_to_link_or_copy@);
            if instrument_entry(e) {
                let dest = compute_dest_path(e.path.as_str(), project_root, ariana_dir);
                files_to_instrument.push((e.path.clone(), dest));
                proof {
                    assert(spec_pair_srcs(files_to_instrument@)
                        =~= f0.push(entries@[i as int].path@));
                    assert(spec_pair_srcs(files_to_instrument@)
                        + spec_instrument_srcs(entries@.skip(i + 1))
                        =~= f0 + spec_instrument_srcs(pre));
                    assert(spec_plain_file_srcs(pre)
                        == spec_plain_file_srcs(entries@.skip(i + 1)));
                }
            } else {
                let dest = compute_dest_path(e.path.as_str(), project_root, ariana_dir);
                files_to_link_or_copy.push((e.path.clone(), dest));
                proof {
                    assert(spec_plain_file_entry(pre[0]));
                    assert(spec_pair_srcs(files_to_link_or_copy@)
                        =~= p0.push(entries@[i as int].path@));
                    assert(spec_pair_srcs(files_to_link_or_copy@)
                        + spec_plain_file_srcs(entries@.skip(i + 1))
                        =~= p0 + spec_plain_file_srcs(pre));
                    assert(spec_instrument_srcs(pre)
                        == spec_instrument_srcs(entries@.skip(i + 1)));
                }
            }
            proof {
                assert(spec_mirror_dir_srcs(entries@, pre)
                    == spec_mirror_dir_srcs(entries@, entries@.skip(i + 1)));
            }
        }
        i = i + 1;
    }
    proof {
        assert(entries@.skip(entries@.len() as int) =~= Seq::<WalkEntry>::empty());
        assert(spec_pair_srcs(files_to_instrument@) + Seq::<Seq<char>>::empty()
            =~= spec_pair_srcs(files_to_instrument@));
        assert(spec_pair_srcs(files_to_link_or_copy@) + Seq::<Seq<char>>::empty()
            =~= spec_pair_srcs(files_to_link_or_copy@));
        assert(spec_pair_srcs(directories_to_link_or_copy@) + Seq::<Seq<char>>::empty()
            =~= spec_pair_srcs(directories_to_link_or_copy@));
    }
    CollectedItems { directories_to_link_or_copy, files_to_instrument, files_to_link_or_copy }
}

proof fn lemma_instrument_srcs_membership(es: Seq<WalkEntry>, p: Seq<char>)
    ensures
        spec_instrument_srcs(es).contains(p) <==> exists|i: int|
            0 <= i < es.len() && spec_instrument_entry(#[trigger] es[i]) && es[i].path@ == p,
    decreases es.len(),
{
    if es.len() > 0 {
        let rest = es.drop_first();
        lemma_instrument_srcs_membership(rest, p);
        if spec_instrument_srcs(es).contains(p) {
            let k = choose|k: int|
                0 <= k < spec_instrument_srcs(es).len() && spec_instrument_srcs(es)[k] == p;
            if spec_instrument_entry(es[0]) {
                if k == 0 {
                    assert(spec_instrument_entry(es[0]) && es[0].path@ == p);
                } else {
                    assert(spec_instrument_srcs(rest)[k - 1] == p);
                    assert(spec_instrument_srcs(rest).contains(p));
                    let i = choose|i: int|
                        0 <= i < rest.len() && spec_instrument_entry(#[trigger] rest[i])
                            && rest[i].path@ == p;
                    assert(es[i + 1] == rest[i]);
                }
            } else {
                assert(spec_instrument_srcs(rest).contains(p));
                let i = choose|i: int|
                    0 <= i < rest.len() && spec_instrument_entry(#[trigger] rest[i])
                        && rest[i].path@ == p;
                assert(es[i + 1] == rest[i]);
            }
        }
        if exists|i: int|
            0 <= i < es.len() && spec_instrument_entry(#[trigger] es[i]) && es[i].path@ == p {
            let i = choose|i: int|
                0 <= i < es.len() && spec_instrument_entry(#[trigger] es[i]) && es[i].path@ == p;
            if i == 0 {
                assert(spec_instrument_srcs(es)[0] == p);
            } else {
                assert(rest[i - 1] == es[i]);
                assert(spec_instrument_srcs(rest).contains(p));
                let k = choose|k: int|
                    0 <= k < spec_instrument_srcs(rest).len() && spec_instrument_srcs(rest)[k]
                        == p;
                if spec_instrument_entry(es[0]) {
                    assert(spec_instrument_srcs(es)[k + 1] == p);
                } else {
                    assert(spec_instrument_srcs(es)[k] == p);
                }
            }
        }
    }
}

proof fn lemma_plain_file_srcs_membership(es: Seq<WalkEntry>, p: Seq<char>)
    ensures
        spec_plain_file_srcs(es).contains(p) <==> exists|i: int|
            0 <= i < es.len() && spec_plain_file_entry(#[trigger] es[i]) && es[i].path@ == p,
    decreases es.len(),
{
    if es.len() > 0 {
        let rest = es.drop_first();
        lemma_plain_file_srcs_membership(rest, p);
        if spec_plain_file_srcs(es).contains(p) {
            let k = choose|k: int|
                0 <= k < spec_plain_file_srcs(es).len() && spec_plain_file_srcs(es)[k] == p;
            if spec_plain_file_entry(es[0]) {
                if k == 0 {
                    assert(spec_plain_file_entry(es[0]) && es[0].path@ == p);
                } else {
                    assert(spec_plain_file_srcs(rest)[k - 1] == p);
                    assert(spec_plain_file_srcs(rest).contains(p));
                    let i = choose|i: int|
                        0 <= i < rest.len() && spec_plain_file_entry(#[trigger] rest[i])
                            && rest[i].path@ == p;
                    assert(es[i + 1] == rest[i]);
                }
            } else {
                assert(spec_plain_file_srcs(rest).contains(p));
                let i = choose|i: int|
                    0 <= i < rest.len() && spec_plain_file_entry(#[trigger] rest[i])
                        && rest[i].path@ == p;
                assert(es[i + 1] == rest[i]);
            }
        }
        if exists|i: int|
            0 <= i < es.len() && spec_plain_file_entry(#[trigger] es[i]) && es[i].path@ == p {
            let i = choose|i: int|
                0 <= i < es.len() && spec_plain_file_entry(#[trigger] es[i]) && es[i].path@ == p;
            if i == 0 {
                assert(spec_plain_file_srcs(es)[0] == p);
            } else {
                assert(rest[i - 1] == es[i]);
                assert(spec_plain_file_srcs(rest).contains(p));
                let k = choose|k: int|
                    0 <= k < spec_plain_file_srcs(rest).len() && spec_plain_file_srcs(rest)[k]
                        == p;
                if spec_plain_file_entry(es[0]) {
                    assert(spec_plain_file_srcs(es)[k + 1] == p);
                } else {
                    assert(spec_plain_file_srcs(es)[k] == p);
                }
            }
        }
    }
}

proof fn lemma_mirror_dir_srcs_membership(all: Seq<WalkEntry>, es: Seq<WalkEntry>, p: Seq<char>)
    ensures
        spec_mirror_dir_srcs(all, es).contains(p) <==> exists|i: int|
            0 <= i < es.len() && spec_mirror_dir_entry(all, #[trigger] es[i]) && es[i].path@ == p,
    decreases es.len(),
{
    if es.len() > 0 {
        let rest = es.drop_first();
        lemma_mirror_dir_srcs_membership(all, rest, p);
        if spec_mirror_dir_srcs(all, es).contains(p) {
            let k = choose|k: int|
                0 <= k < spec_mirror_dir_srcs(all, es).len() && spec_mirror_dir_srcs(all, es)[k]
                    == p;
            if spec_mirror_dir_entry(all, es[0]) {
                if k == 0 {
                    assert(spec_mirror_dir_entry(all, es[0]) && es[0].path@ == p);
                } else {
                    assert(spec_mirror_dir_srcs(all, rest)[k - 1] == p);
                    assert(spec_mirror_dir_srcs(all, rest).contains(p));
                    let i = choose|i: int|
                        0 <= i < rest.len() && spec_mirror_dir_entry(all, #[trigger] rest[i])
                            && rest[i].path@ == p;
                    assert(es[i + 1] == rest[i]);
                }
            } else {
                assert(spec_mirror_dir_srcs(all, rest).contains(p));
                let i = choose|i: int|
                    0 <= i < rest.len() && spec_mirror_dir_entry(all, #[trigger] rest[i])
                        && rest[i].path@ == p;
                assert(es[i + 1] == rest[i]);
            }
        }
        if exists|i: int|
            0 <= i < es.len() && spec_mirror_dir_entry(all, #[trigger] es[i]) && es[i].path@
                == p {
            let i = choose|i: int|
                0 <= i < es.len() && spec_mirror_dir_entry(all, #[trigger] es[i]) && es[i].path@
                    == p;
            if i == 0 {
                assert(spec_mirror_dir_srcs(all, es)[0] == p);
            } else {
                assert(rest[i - 1] == es[i]);
                assert(spec_mirror_dir_srcs(all, rest).contains(p));
                let k = choose|k: int|
                    0 <= k < spec_mirror_dir_srcs(all, rest).len() && spec_mirror_dir_srcs(
                        all,
                        rest,
                    )[k] == p;
                if spec_mirror_dir_entry(all, es[0]) {
                    assert(spec_mirror_dir_srcs(all, es)[k + 1] == p);
                } else {
                    assert(spec_mirror_dir_srcs(all, es)[k] == p);
                }
            }
        }
    }
}

/// Path partitioning: over a walk with distinct paths, the three Collected
/// Items source sets are pairwise disjoint; their union is exactly the
/// walked entries that pass the classifier — each file is instrumented or
/// mirrored verbatim by its classification, each mirrored directory is a
/// mirror candidate without walked files below it — and no instrumented
/// file lies below a mirrored directory.
pub proof fn lemma_collected_partition(es: Seq<WalkEntry>)
    requires
        spec_distinct_paths(es),
    ensures
        forall|p: Seq<char>|
            !(#[trigger] spec_instrument_srcs(es).contains(p)
                && #[trigger] spec_plain_file_srcs(es).contains(p)),
        forall|p: Seq<char>|
            !(#[trigger] spec_instrument_srcs(es).contains(p)
                && #[trigger] spec_mirror_dir_srcs(es, es).contains(p)),
        forall|p: Seq<char>|
            !(#[trigger] spec_plain_file_srcs(es).contains(p)
                && #[trigger] spec_mirror_dir_srcs(es, es).contains(p)),
        forall|d: Seq<char>, p: Seq<char>|
            #[trigger] spec_mirror_dir_srcs(es, es).contains(d)
                && #[trigger] spec_instrument_srcs(es).contains(p) ==> !spec_is_ancestor(d, p),
        forall|p: Seq<char>| #[trigger]
            spec_instrument_srcs(es).contains(p) <==> exists|i: int|
                0 <= i < es.len() && spec_instrument_entry(#[trigger] es[i]) && es[i].path@ == p,
        forall|p: Seq<char>| #[trigger]
            spec_plain_file_srcs(es).contains(p) <==> exists|i: int|
                0 <= i < es.len() && spec_plain_file_entry(#[trigger] es[i]) && es[i].path@ == p,
        forall|p: Seq<char>| #[trigger]
            spec_mirror_dir_srcs(es, es).contains(p) <==> exists|i: int|
                0 <= i < es.len() && spec_mirror_dir_entry(es, #[trigger] es[i]) && es[i].path@
                    == p,
{
    assert forall|p: Seq<char>|
        #![trigger spec_instrument_srcs(es).contains(p)]
        #![trigger spec_plain_file_srcs(es).contains(p)]
        #![trigger spec_mirror_dir_srcs(es, es).contains(p)]
        true implies {
        &&& (spec_instrument_srcs(es).contains(p) <==> exists|i: int|
            0 <= i < es.len() && spec_instrument_entry(#[trigger] es[i]) && es[i].path@ == p)
        &&& (spec_plain_file_srcs(es).contains(p) <==> exists|i: int|
            0 <= i < es.len() && spec_plain_file_entry(#[trigger] es[i]) && es[i].path@ == p)
        &&& (spec_mirror_dir_srcs(es, es).contains(p) <==> exists|i: int|
            0 <= i < es.len() && spec_mirror_dir_entry(es, #[trigger] es[i]) && es[i].path@ == p)
    } by {
        lemma_instrument_srcs_membership(es, p);
        lemma_plain_file_srcs_membership(es, p);
        lemma_mirror_dir_srcs_membership(es, es, p);
    }
    assert forall|p: Seq<char>|
        !(#[trigger] spec_instrument_srcs(es).contains(p)
            && #[trigger] spec_plain_file_srcs(es).contains(p)) by {
        if spec_instrument_srcs(es).contains(p) && spec_plain_file_srcs(es).contains(p) {
            let i = choose|i: int|
                0 <= i < es.len() && spec_instrument_entry(#[trigger] es[i]) && es[i].path@ == p;
            let j = choose|j: int|
                0 <= j < es.len() && spec_plain_file_entry(#[trigger] es[j]) && es[j].path@ == p;
            assert(i != j);
            assert(es[i].path@ != es[j].path@);
        }
    }
    assert forall|p: Seq<char>|
        !(#[trigger] spec_instrument_srcs(es).contains(p)
            && #[trigger] spec_mirror_dir_srcs(es, es).contains(p)) by {
        if spec_instrument_srcs(es).contains(p) && spec_mirror_dir_srcs(es, es).contains(p) {
            let i = choose|i: int|
                0 <= i < es.len() && spec_instrument_entry(#[trigger] es[i]) && es[i].path@ == p;
            let j = choose|j: int|
                0 <= j < es.len() && spec_mirror_dir_entry(es, #[trigger] es[j]) && es[j].path@
                    == p;
            assert(i != j);
            assert(es[i].path@ != es[j].path@);
        }
    }
    assert forall|p: Seq<char>|
        !(#[trigger] spec_plain_file_srcs(es).contains(p)
            && #[trigger] spec_mirror_dir_srcs(es, es).contains(p)) by {
        if spec_plain_file_srcs(es).contains(p) && spec_mirror_dir_srcs(es, es).contains(p) {
            let i = choose|i: int|
                0 <= i < es.len() && spec_plain_file_entry(#[trigger] es[i]) && es[i].path@ == p;
            let j = choose|j: int|
                0 <= j < es.len() && spec_mirror_dir_entry(es, #[trigger] es[j]) && es[j].path@
                    == p;
            assert(i != j);
            assert(es[i].path@ != es[j].path@);
        }
    }
    assert forall|d: Seq<char>, p: Seq<char>|
        #[trigger] spec_mirror_dir_srcs(es, es).contains(d)
            && #[trigger] spec_instrument_srcs(es).contains(p) implies !spec_is_ancestor(
        d,
        p,
    ) by {
        let i = choose|i: int|
            0 <= i < es.len() && spec_mirror_dir_entry(es, #[trigger] es[i]) && es[i].path@ == d;
        let j = choose|j: int|
            0 <= j < es.len() && spec_instrument_entry(#[trigger] es[j]) && es[j].path@ == p;
        if spec_is_ancestor(d, p) {
            assert(!es[j].is_dir && spec_is_ancestor(es[i].path@, es[j].path@));
            assert(spec_has_file_descendant(es, d));
        }
    }
}

} // verus!
