//! Instrumentation batching: files are sorted by ascending size and cut
//! into chunks of at most 300 per request; a declined slot in the server's
//! answer falls back to the file's original content, index-aligned.

use vstd::prelude::*;
use vstd::multiset::Multiset;

verus! {

/// The largest number of files one instrumentation request may carry.
pub open spec fn spec_rpc_limit() -> int {
    300
}

/// A batching item: a file's size and its index in the caller's list.
pub open spec fn spec_sorted_by_size(s: Seq<(u64, usize)>) -> bool {
    forall|i: int, j: int| 0 <= i < j < s.len() ==> (#[trigger] s[i]).0 <= (#[trigger] s[j]).0
}

proof fn lemma_empty_to_multiset(s: Seq<(u64, usize)>)
    requires
        s.len() == 0,
    ensures
        s.to_multiset() == Multiset::<(u64, usize)>::empty(),
{
    broadcast use vstd::seq_lib::group_to_multiset_ensures;
    broadcast use vstd::multiset::group_multiset_axioms;

    assert forall|a: (u64, usize)| #[trigger] s.to_multiset().count(a) == 0 by {
        assert(!s.contains(a));
    }
    assert(s.to_multiset() =~= Multiset::<(u64, usize)>::empty());
}

/// Sorts `(size, index)` items by ascending size: the result is a
/// permutation of the input, ordered by size.
pub fn sort_files_by_size(files: Vec<(u64, usize)>) -> (r: Vec<(u64, usize)>)
    ensures
        r@.to_multiset() == files@.to_multiset(),
        spec_sorted_by_size(r@),
        r@.len() == files@.len(),
{
    let ghost orig = files@;
    let mut working = files;
    let mut out: Vec<(u64, usize)> = Vec::new();
    proof {
        broadcast use vstd::multiset::group_multiset_axioms;

        lemma_empty_to_multiset(out@);
        assert(out@.to_multiset().add(working@.to_multiset()) =~= orig.to_multiset());
    }
    while working.len() > 0
        invariant
            out@.to_multiset().add(working@.to_multiset()) == orig.to_multiset(),
            out@.len() + working@.len() == orig.len(),
            spec_sorted_by_size(out@),
            forall|k: int, l: int|
                0 <= k < out@.len() && 0 <= l < working@.len()
                    ==> (#[trigger] out@[k]).0 <= (#[trigger] working@[l]).0,
        decreases working@.len(),
    {
        let mut m: usize = 0;
        let mut j: usize = 1;
        while j < working.len()
            invariant
                m < j <= working@.len() || (j <= working@.len() && m == 0),
                m < working@.len(),
                working@.len() > 0,
                forall|l: int| 0 <= l < j ==> (#[trigger] working@[m as int]).0 <= working@[l].0,
            decreases working@.len() - j,
        {
            if working[j].0 < working[m].0 {
                m = j;
            }
            j = j + 1;
        }
        let ghost working0 = working@;
        let ghost out0 = out@;
        let x = working.remove(m);
        out.push(x);
        proof {
            broadcast use vstd::seq_lib::group_to_multiset_ensures;
            broadcast use vstd::multiset::group_multiset_axioms;

            assert(working0.contains(x));
            assert(working0.to_multiset().count(x) > 0);
            assert(working@ == working0.remove(m as int));
            assert(working0.remove(m as int).to_multiset() == working0.to_multiset().remove(x));
            assert(out@ == out0.push(x));
            assert(out0.push(x).to_multiset() =~= out0.to_multiset().insert(x));
            assert(out@.to_multiset().add(working@.to_multiset()) =~= orig.to_multiset());
            assert forall|l: int| 0 <= l < working@.len() implies x.0
                <= (#[trigger] working@[l]).0 by {
                assert(working0.to_multiset().contains(working@[l]));
                let k = choose|k: int| 0 <= k < working0.len() && working0[k] == working@[l];
                assert(x.0 <= working0[k].0);
            }
        }
    }
    proof {
        broadcast use vstd::multiset::group_multiset_axioms;

        lemma_empty_to_multiset(working@);
        assert(out@.to_multiset().add(working@.to_multiset()) =~= out@.to_multiset());
    }
    out
}

/// The views of a vector of batches.
pub open spec fn batch_views(bs: Seq<Vec<(u64, usize)>>) -> Seq<Seq<(u64, usize)>> {
    bs.map_values(|b: Vec<(u64, usize)>| b@)
}

/// Cuts the sorted files into consecutive chunks of at most 300, in order:
/// the chunks concatenate back to the input, none is empty, and every
/// chunk but the last is full.
pub fn chunk_files(sorted: &Vec<(u64, usize)>) -> (batches: Vec<Vec<(u64, usize)>>)
    ensures
        batch_views(batches@).flatten() == sorted@,
        forall|k: int|
            0 <= k < batches@.len() ==> 0 < (#[trigger] batch_views(batches@)[k]).len()
                <= spec_rpc_limit(),
        forall|k: int|
            0 <= k < batches@.len() - 1 ==> (#[trigger] batch_views(batches@)[k]).len()
                == spec_rpc_limit(),
{
    let mut batches: Vec<Vec<(u64, usize)>> = Vec::new();
    let mut i: usize = 0;
    proof {
        broadcast use vstd::prelude::Seq::lemma_flatten_push;

        assert(batch_views(batches@) =~= Seq::<Seq<(u64, usize)>>::empty());
        assert(batch_views(batches@).flatten() =~= sorted@.take(0));
    }
    while i < sorted.len()
        invariant
            i <= sorted@.len(),
            batch_views(batches@).flatten() == sorted@.take(i as int),
            forall|k: int|
                0 <= k < batches@.len() ==> 0 < (#[trigger] batch_views(batches@)[k]).len()
                    <= spec_rpc_limit(),
            forall|k: int|
                0 <= k < batches@.len() && i < sorted@.len()
                    ==> (#[trigger] batch_views(batches@)[k]).len() == spec_rpc_limit(),
            forall|k: int|
                0 <= k < batches@.len() - 1 ==> (#[trigger] batch_views(batches@)[k]).len()
                    == spec_rpc_limit(),
        decreases sorted@.len() - i,
    {
        let remaining = sorted.len() - i;
        let take_n: usize = if remaining < 300 {
            remaining
        } else {
            300
        };
        let n = sorted.len();
        let mut chunk: Vec<(u64, usize)> = Vec::new();
        let mut j: usize = 0;
        while j < take_n
            invariant
                j <= take_n,
                n == sorted@.len(),
                i + take_n <= n,
                chunk@ == sorted@.subrange(i as int, i + j),
            decreases take_n - j,
        {
            chunk.push(sorted[i + j]);
            assert(sorted@.subrange(i as int, i + j + 1)
                =~= sorted@.subrange(i as int, i + j as int).push(sorted@[i + j]));
            j = j + 1;
        }
        let ghost bs0 = batch_views(batches@);
        batches.push(chunk);
        proof {
            broadcast use vstd::prelude::Seq::lemma_flatten_push;

            assert(batch_views(batches@) =~= bs0.push(sorted@.subrange(i as int, i + take_n)));
            assert(batch_views(batches@).flatten()
                =~= bs0.flatten() + sorted@.subrange(i as int, i + take_n));
            assert(sorted@.take(i + take_n)
                =~= sorted@.take(i as int) + sorted@.subrange(i as int, i + take_n));
        }
        i = i + take_n;
    }
    proof {
        assert(sorted@.take(sorted@.len() as int) =~= sorted@);
    }
    batches
}

/// Resolves the server's answer against the originals: a returned content
/// replaces the file, a declined slot keeps the original, index-aligned.
pub fn resolve_contents(originals: &Vec<Vec<u8>>, instrumented: &Vec<Option<Vec<u8>>>) -> (r: Vec<
    Vec<u8>,
>)
    requires
        originals@.len() == instrumented@.len(),
    ensures
        r@.len() == originals@.len(),
        forall|k: int|
            0 <= k < r@.len() ==> (#[trigger] r@[k])@ == (match instrumented@[k] {
                Some(c) => c@,
                None => originals@[k]@,
            }),
{
    let mut r: Vec<Vec<u8>> = Vec::new();
    let mut i: usize = 0;
    while i < originals.len()
        invariant
            i <= originals@.len(),
            originals@.len() == instrumented@.len(),
            r@.len() == i,
            forall|k: int|
                0 <= k < i ==> (#[trigger] r@[k])@ == (match instrumented@[k] {
                    Some(c) => c@,
                    None => originals@[k]@,
                }),
        decreases originals@.len() - i,
    {
        match &instrumented[i] {
            Some(c) => r.push(c.clone()),
            None => r.push(originals[i].clone()),
        }
        i = i + 1;
    }
    r
}

} // verus!
