//! A plain model of filesystem paths as strings with `/` separators:
//! last components, extensions, the ancestor relation, and the mapping
//! from a source path to its mirror destination.

use vstd::prelude::*;
use vstd::string::StringExecFns;

verus! {

/// The index of the last `/` in `p`, if any.
pub open spec fn spec_last_slash(p: Seq<char>) -> Option<int>
    decreases p.len(),
{
    if p.len() == 0 {
        None
    } else if p[p.len() - 1] == '/' {
        Some(p.len() - 1)
    } else {
        spec_last_slash(p.drop_last())
    }
}

/// The part of `p` after its last `/`, or all of `p` when it has none.
pub open spec fn spec_last_component(p: Seq<char>) -> Seq<char> {
    match spec_last_slash(p) {
        None => p,
        Some(i) => p.skip(i + 1),
    }
}

proof fn lemma_last_slash_bounds(p: Seq<char>)
    ensures
        match spec_last_slash(p) {
            None => forall|j: int| 0 <= j < p.len() ==> p[j] != '/',
            Some(i) => 0 <= i < p.len() && p[i] == '/'
                && forall|j: int| i < j < p.len() ==> p[j] != '/',
        },
    decreases p.len(),
{
    if p.len() > 0 && p[p.len() - 1] != '/' {
        lemma_last_slash_bounds(p.drop_last());
        assert forall|j: int| 0 <= j < p.len() - 1 implies p.drop_last()[j] == p[j] by {}
    }
}

/// Returns the index just after the last `/` of `p`, or 0 when `p` has none.
fn after_last_slash(p: &str) -> (r: usize)
    ensures
        match spec_last_slash(p@) {
            None => r == 0,
            Some(i) => r == i + 1,
        },
{
    let len = p.unicode_len();
    let mut i: usize = len;
    while i > 0
        invariant
            i <= len,
            len == p@.len(),
            forall|j: int| i <= j < len ==> p@[j] != '/',
        decreases i,
    {
        if p.get_char(i - 1) == '/' {
            proof {
                lemma_last_slash_bounds(p@);
                match spec_last_slash(p@) {
                    None => {
                        assert(p@[i - 1] == '/');
                        assert(false);
                    },
                    Some(k) => {
                        if k < i - 1 {
                            assert(p@[i - 1] != '/');
                            assert(false);
                        }
                        if k > i - 1 {
                            assert(p@[k] != '/');
                            assert(false);
                        }
                    },
                }
            }
            return i;
        }
        i = i - 1;
    }
    proof {
        lemma_last_slash_bounds(p@);
        match spec_last_slash(p@) {
            None => {},
            Some(k) => {
                assert(p@[k] == '/');
                assert(false);
            },
        }
    }
    0
}

/// Extracts the last component of `p` (the file or directory name).
pub fn last_component(p: &str) -> (r: String)
    ensures
        r@ == spec_last_component(p@),
{
    let len = p.unicode_len();
    let start = after_last_slash(p);
    proof {
        lemma_last_slash_bounds(p@);
    }
    let r = p.substring_char(start, len);
    r.to_owned()
}

/// The index of the last `.` of `name` at a position after 0, if any: the
/// split point of the name's extension. A name whose only `.` is its first
/// character (a hidden file) has no extension.
pub open spec fn spec_ext_dot(name: Seq<char>) -> Option<int>
    decreases name.len(),
{
    if name.len() <= 1 {
        None
    } else if name[name.len() - 1] == '.' {
        Some(name.len() - 1)
    } else {
        spec_ext_dot(name.drop_last())
    }
}

/// The extension of a file name: what follows its last `.`, if that `.`
/// does not open the name.
pub open spec fn spec_extension(name: Seq<char>) -> Option<Seq<char>> {
    match spec_ext_dot(name) {
        None => None,
        Some(i) => Some(name.skip(i + 1)),
    }
}

proof fn lemma_ext_dot_bounds(name: Seq<char>)
    ensures
        match spec_ext_dot(name) {
            None => forall|j: int| 1 <= j < name.len() ==> name[j] != '.',
            Some(i) => 1 <= i < name.len() && name[i] == '.'
                && forall|j: int| i < j < name.len() ==> name[j] != '.',
        },
    decreases name.len(),
{
    if name.len() > 1 && name[name.len() - 1] != '.' {
        lemma_ext_dot_bounds(name.drop_last());
        assert forall|j: int| 0 <= j < name.len() - 1 implies name.drop_last()[j] == name[j] by {}
    }
}

/// Extracts the extension of a file name, as `Path::extension` reports it.
pub fn extension_of(name: &str) -> (r: Option<String>)
    ensures
        match r {
            None => spec_extension(name@).is_none(),
            Some(e) => spec_extension(name@) == Some(e@),
        },
{
    let len = name.unicode_len();
    let mut i: usize = len;
    while i > 1
        invariant
            i <= len,
            len == name@.len(),
            forall|j: int| i <= j < len ==> name@[j] != '.',
        decreases i,
    {
        if name.get_char(i - 1) == '.' {
            proof {
                lemma_ext_dot_bounds(name@);
                match spec_ext_dot(name@) {
                    None => {
                        assert(name@[i - 1] == '.');
                        assert(false);
                    },
                    Some(k) => {
                        if k < i - 1 {
                            assert(name@[i - 1] != '.');
                            assert(false);
                        }
                        if k > i - 1 {
                            assert(name@[k] != '.');
                            assert(false);
                        }
                    },
                }
            }
            let e = name.substring_char(i, len);
            return Some(e.to_owned());
        }
        i = i - 1;
    }
    proof {
        lemma_ext_dot_bounds(name@);
        match spec_ext_dot(name@) {
            None => {},
            Some(k) => {
                assert(name@[k] == '.');
                assert(false);
            },
        }
    }
    None
}

/// `d` is a strict ancestor directory of `f`: `f` is `d`, a slash, and a
/// non-empty remainder.
pub open spec fn spec_is_ancestor(d: Seq<char>, f: Seq<char>) -> bool {
    &&& d.len() + 1 < f.len()
    &&& f.take(d.len() as int) == d
    &&& f[d.len() as int] == '/'
}

/// Decides whether the path `d` is a strict ancestor of the path `f`.
pub fn is_path_ancestor(d: &str, f: &str) -> (r: bool)
    ensures
        r == spec_is_ancestor(d@, f@),
{
    let ld = d.unicode_len();
    let lf = f.unicode_len();
    if lf <= ld {
        return false;
    }
    if lf - ld < 2 {
        return false;
    }
    if f.get_char(ld) != '/' {
        return false;
    }
    let mut i: usize = 0;
    while i < ld
        invariant
            i <= ld,
            ld < lf,
            ld == d@.len(),
            lf == f@.len(),
            forall|j: int| 0 <= j < i ==> f@[j] == d@[j],
        decreases ld - i,
    {
        if f.get_char(i) != d.get_char(i) {
            assert(f@.take(d@.len() as int)[i as int] != d@[i as int]);
            return false;
        }
        i = i + 1;
    }
    assert(f@.take(d@.len() as int) =~= d@);
    true
}

/// The mirror destination of a source path: the mirror root followed by the
/// source's path relative to the project root.
pub open spec fn spec_dest_path(src: Seq<char>, root: Seq<char>, ariana: Seq<char>) -> Seq<char> {
    ariana + seq!['/'] + src.skip(root.len() + 1 as int)
}

/// Maps a source path under `project_root` to its destination under
/// `ariana_dir`.
pub fn compute_dest_path(src_path: &str, project_root: &str, ariana_dir: &str) -> (r: String)
    requires
        spec_is_ancestor(project_root@, src_path@),
    ensures
        r@ == spec_dest_path(src_path@, project_root@, ariana_dir@),
{
    let root_len = project_root.unicode_len();
    let src_len = src_path.unicode_len();
    let rel = src_path.substring_char(root_len + 1, src_len);
    let mut r = ariana_dir.to_owned();
    r.append("/");
    r.append(rel);
    proof {
        reveal_strlit("/");
        assert(r@ =~= spec_dest_path(src_path@, project_root@, ariana_dir@));
    }
    r
}

} // verus!
