//! Backup and restore: in-place instrumentation first saves every file's
//! original bytes in an archive keyed by the absolute source path, then
//! overwrites the file; restoring writes every archive entry back to the
//! path stored as its key. Restoring after instrumenting is a no-op on
//! file contents.

use vstd::prelude::*;

verus! {

/// The backup archive: original file contents keyed by absolute source
/// path, in the order they were saved.
pub struct BackupArchive {
    /// The archive's entries: `(absolute source path, original bytes)`.
    pub entries: Vec<(String, Vec<u8>)>,
}

/// The keys of a list of archive entries.
pub open spec fn spec_entry_keys(es: Seq<(String, Vec<u8>)>) -> Seq<Seq<char>> {
    es.map_values(|e: (String, Vec<u8>)| e.0@)
}

/// The mathematical value of a list of archive entries or planned writes.
pub open spec fn spec_entry_views(es: Seq<(String, Vec<u8>)>) -> Seq<(Seq<char>, Seq<u8>)> {
    es.map_values(|e: (String, Vec<u8>)| (e.0@, e.1@))
}

/// The first content stored under `p`, if any.
pub open spec fn spec_lookup(es: Seq<(Seq<char>, Seq<u8>)>, p: Seq<char>) -> Option<Seq<u8>>
    decreases es.len(),
{
    if es.len() == 0 {
        None
    } else if es[0].0 == p {
        Some(es[0].1)
    } else {
        spec_lookup(es.drop_first(), p)
    }
}

impl BackupArchive {
    /// The archive's invariant: no path is archived twice, so the one
    /// entry under a path holds the file's pre-run bytes.
    pub open spec fn wf(self) -> bool {
        forall|i: int, j: int|
            0 <= i < j < self.entries@.len()
                ==> (#[trigger] self.entries@[i]).0@ != (#[trigger] self.entries@[j]).0@
    }

    /// An empty archive.
    pub fn new() -> (a: Self)
        ensures
            a.wf(),
            a.entries@.len() == 0,
    {
        BackupArchive { entries: Vec::new() }
    }

    /// Whether `p` is already archived.
    pub fn contains_key(&self, p: &str) -> (r: bool)
        ensures
            r == spec_lookup(spec_entry_views(self.entries@), p@).is_some(),
    {
        let mut i: usize = 0;
        proof {
            assert(spec_entry_views(self.entries@).skip(0) =~= spec_entry_views(self.entries@));
        }
        while i < self.entries.len()
            invariant
                i <= self.entries@.len(),
                spec_lookup(spec_entry_views(self.entries@), p@) == spec_lookup(
                    spec_entry_views(self.entries@).skip(i as int),
                    p@,
                ),
            decreases self.entries@.len() - i,
        {
            let ghost pre = spec_entry_views(self.entries@).skip(i as int);
            proof {
                assert(pre[0] == spec_entry_views(self.entries@)[i as int]);
                assert(pre.drop_first() =~= spec_entry_views(self.entries@).skip(i + 1));
            }
            if crate::strutil::str_eq(self.entries[i].0.as_str(), p) {
                return true;
            }
            i = i + 1;
        }
        proof {
            assert(spec_entry_views(self.entries@).skip(self.entries@.len() as int)
                =~= Seq::<(Seq<char>, Seq<u8>)>::empty());
        }
        false
    }

    /// Saves the original bytes of a not-yet-archived path, as the backup
    /// writer does before the instrumented content replaces the file.
    pub fn append(&mut self, path: String, content: Vec<u8>)
        requires
            old(self).wf(),
            spec_lookup(spec_entry_views(old(self).entries@), path@).is_none(),
        ensures
            final(self).wf(),
            final(self).entries@ == old(self).entries@.push((path, content)),
    {
        proof {
            lemma_lookup_none_no_key(spec_entry_views(self.entries@), path@);
        }
        self.entries.push((path, content));
        proof {
            assert forall|i: int, j: int| 0 <= i < j < self.entries@.len() implies (
            #[trigger] self.entries@[i]).0@ != (#[trigger] self.entries@[j]).0@ by {
                if j == self.entries@.len() - 1 {
                    assert(spec_entry_views(old(self).entries@)[i]
                        == (old(self).entries@[i].0@, old(self).entries@[i].1@));
                }
            }
        }
    }

    /// The content archived under `p`, if any.
    pub fn lookup(&self, p: &str) -> (r: Option<&Vec<u8>>)
        ensures
            match r {
                Some(c) => spec_lookup(spec_entry_views(self.entries@), p@) == Some(c@),
                None => spec_lookup(spec_entry_views(self.entries@), p@).is_none(),
            },
    {
        let mut i: usize = 0;
        proof {
            assert(spec_entry_views(self.entries@).skip(0) =~= spec_entry_views(self.entries@));
        }
        while i < self.entries.len()
            invariant
                i <= self.entries@.len(),
                spec_lookup(spec_entry_views(self.entries@), p@) == spec_lookup(
                    spec_entry_views(self.entries@).skip(i as int),
                    p@,
                ),
            decreases self.entries@.len() - i,
        {
            let ghost pre = spec_entry_views(self.entries@).skip(i as int);
            proof {
                assert(pre[0] == spec_entry_views(self.entries@)[i as int]);
                assert(pre.drop_first() =~= spec_entry_views(self.entries@).skip(i + 1));
            }
            if crate::strutil::str_eq(self.entries[i].0.as_str(), p) {
                return Some(&self.entries[i].1);
            }
            i = i + 1;
        }
        proof {
            assert(spec_entry_views(self.entries@).skip(self.entries@.len() as int)
                =~= Seq::<(Seq<char>, Seq<u8>)>::empty());
        }
        None
    }

    /// The writes of the archive-driven restore: every entry back to the
    /// path stored as its key, in archive order.
    pub fn restore_writes(&self) -> (r: &Vec<(String, Vec<u8>)>)
        ensures
            r@ == self.entries@,
    {
        &self.entries
    }
}

proof fn lemma_lookup_none_no_key(es: Seq<(Seq<char>, Seq<u8>)>, p: Seq<char>)
    requires
        spec_lookup(es, p).is_none(),
    ensures
        forall|k: int| 0 <= k < es.len() ==> (#[trigger] es[k]).0 != p,
    decreases es.len(),
{
    if es.len() > 0 {
        lemma_lookup_none_no_key(es.drop_first(), p);
        assert forall|k: int| 0 <= k < es.len() implies (#[trigger] es[k]).0 != p by {
            if k > 0 {
                assert(es.drop_first()[k - 1] == es[k]);
            }
        }
    }
}

/// The filesystem after a list of writes: each `(path, bytes)` stored in
/// order.
pub open spec fn spec_apply_writes(
    fs: Map<Seq<char>, Seq<u8>>,
    ws: Seq<(Seq<char>, Seq<u8>)>,
) -> Map<Seq<char>, Seq<u8>>
    decreases ws.len(),
{
    if ws.len() == 0 {
        fs
    } else {
        spec_apply_writes(fs.insert(ws[0].0, ws[0].1), ws.drop_first())
    }
}

proof fn lemma_apply_untouched(fs: Map<Seq<char>, Seq<u8>>, ws: Seq<(Seq<char>, Seq<u8>)>, p: Seq<char>)
    requires
        forall|k: int| 0 <= k < ws.len() ==> (#[trigger] ws[k]).0 != p,
    ensures
        spec_apply_writes(fs, ws).contains_key(p) == fs.contains_key(p),
        fs.contains_key(p) ==> spec_apply_writes(fs, ws)[p] == fs[p],
    decreases ws.len(),
{
    if ws.len() > 0 {
        let fs1 = fs.insert(ws[0].0, ws[0].1);
        assert forall|k: int| 0 <= k < ws.drop_first().len() implies (
        #[trigger] ws.drop_first()[k]).0 != p by {
            assert(ws.drop_first()[k] == ws[k + 1]);
        }
        lemma_apply_untouched(fs1, ws.drop_first(), p);
    }
}

proof fn lemma_apply_constant_key(
    fs: Map<Seq<char>, Seq<u8>>,
    ws: Seq<(Seq<char>, Seq<u8>)>,
    p: Seq<char>,
    v: Seq<u8>,
)
    requires
        exists|k: int| 0 <= k < ws.len() && (#[trigger] ws[k]).0 == p,
        forall|k: int| 0 <= k < ws.len() && (#[trigger] ws[k]).0 == p ==> ws[k].1 == v,
    ensures
        spec_apply_writes(fs, ws).contains_key(p),
        spec_apply_writes(fs, ws)[p] == v,
    decreases ws.len(),
{
    let rest = ws.drop_first();
    let fs1 = fs.insert(ws[0].0, ws[0].1);
    assert forall|k: int| 0 <= k < rest.len() && (#[trigger] rest[k]).0 == p implies rest[k].1
        == v by {
        assert(rest[k] == ws[k + 1]);
    }
    if exists|k: int| 0 <= k < rest.len() && (#[trigger] rest[k]).0 == p {
        lemma_apply_constant_key(fs1, rest, p, v);
    } else {
        let k0 = choose|k: int| 0 <= k < ws.len() && (#[trigger] ws[k]).0 == p;
        if k0 != 0 {
            assert(rest[k0 - 1] == ws[k0]);
            assert(false);
        }
        assert(ws[0].0 == p && ws[0].1 == v);
        assert forall|k: int| 0 <= k < rest.len() implies (#[trigger] rest[k]).0 != p by {}
        lemma_apply_untouched(fs1, rest, p);
        assert(fs1.contains_key(p) && fs1[p] == v);
    }
}

/// The mirror writes for `(src, dest)` pairs: each destination receives
/// the source's bytes.
pub open spec fn spec_mirror_writes(
    fs0: Map<Seq<char>, Seq<u8>>,
    pairs: Seq<(Seq<char>, Seq<char>)>,
) -> Seq<(Seq<char>, Seq<u8>)> {
    pairs.map_values(|p: (Seq<char>, Seq<char>)| (p.1, fs0[p.0]))
}

/// Mirror fidelity: when every `(src, dest)` pair of the mirror writes its
/// source's bytes to its destination, and no two pairs share a
/// destination, then afterwards reading each destination yields bytes
/// identical to its source's.
pub proof fn lemma_mirror_fidelity(
    fs0: Map<Seq<char>, Seq<u8>>,
    pairs: Seq<(Seq<char>, Seq<char>)>,
)
    requires
        forall|k: int| 0 <= k < pairs.len() ==> fs0.contains_key((#[trigger] pairs[k]).0),
        forall|k: int, l: int|
            0 <= k < l < pairs.len() ==> (#[trigger] pairs[k]).1 != (#[trigger] pairs[l]).1,
    ensures
        forall|k: int|
            0 <= k < pairs.len() ==> {
                let fs1 = spec_apply_writes(fs0, spec_mirror_writes(fs0, pairs));
                &&& fs1.contains_key((#[trigger] pairs[k]).1)
                &&& fs1[pairs[k].1] == fs0[pairs[k].0]
            },
{
    let ws = spec_mirror_writes(fs0, pairs);
    assert forall|k: int| 0 <= k < pairs.len() implies {
        let fs1 = spec_apply_writes(fs0, ws);
        &&& fs1.contains_key((#[trigger] pairs[k]).1)
        &&& fs1[pairs[k].1] == fs0[pairs[k].0]
    } by {
        assert(ws[k] == (pairs[k].1, fs0[pairs[k].0]));
        assert forall|l: int|
            0 <= l < ws.len() && (#[trigger] ws[l]).0 == pairs[k].1 implies ws[l].1
            == fs0[pairs[k].0] by {
            assert(ws[l] == (pairs[l].1, fs0[pairs[l].0]));
            if l != k {
                assert(pairs[l].1 != pairs[k].1);
            }
        }
        lemma_apply_constant_key(fs0, ws, pairs[k].1, fs0[pairs[k].0]);
    }
}

/// Backup round-trip: starting from a filesystem `fs0`, instrument-time
/// writes that touch only archived paths, followed by the restore of an
/// archive whose every entry holds a path's pre-run bytes, leave every
/// file byte-identical to its pre-run state. Running in-place and then
/// restoring is thus a no-op on file contents.
pub proof fn lemma_backup_round_trip(
    fs0: Map<Seq<char>, Seq<u8>>,
    archive: Seq<(Seq<char>, Seq<u8>)>,
    writes: Seq<(Seq<char>, Seq<u8>)>,
)
    requires
        forall|k: int|
            0 <= k < archive.len() ==> fs0.contains_key((#[trigger] archive[k]).0)
                && archive[k].1 == fs0[archive[k].0],
        forall|k: int|
            0 <= k < writes.len() ==> exists|l: int|
                0 <= l < archive.len() && (#[trigger] archive[l]).0 == (#[trigger] writes[k]).0,
    ensures
        spec_apply_writes(spec_apply_writes(fs0, writes), archive) == fs0,
{
    let mid = spec_apply_writes(fs0, writes);
    let fin = spec_apply_writes(mid, archive);
    assert forall|p: Seq<char>| #[trigger]
        fin.contains_key(p) == fs0.contains_key(p) && (fs0.contains_key(p) ==> fin[p]
            == fs0[p]) by {
        if exists|l: int| 0 <= l < archive.len() && (#[trigger] archive[l]).0 == p {
            let l = choose|l: int| 0 <= l < archive.len() && (#[trigger] archive[l]).0 == p;
            assert forall|k: int|
                0 <= k < archive.len() && (#[trigger] archive[k]).0 == p implies archive[k].1
                == fs0[p] by {}
            lemma_apply_constant_key(mid, archive, p, fs0[p]);
            assert(fs0.contains_key(p));
        } else {
            assert forall|k: int| 0 <= k < archive.len() implies (#[trigger] archive[k]).0
                != p by {}
            lemma_apply_untouched(mid, archive, p);
            assert forall|k: int| 0 <= k < writes.len() implies (#[trigger] writes[k]).0 != p by {
                if writes[k].0 == p {
                    let l = choose|l: int|
                        0 <= l < archive.len() && (#[trigger] archive[l]).0 == writes[k].0;
                    assert(false);
                }
            }
            lemma_apply_untouched(fs0, writes, p);
        }
    }
    assert(fin =~= fs0);
}

} // verus!
