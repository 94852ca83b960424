//! Amending the project's `.gitignore`: the harness's own directories and
//! the vault key file are appended, each only when it is not already a
//! line of the file; an already complete file is left untouched.

use vstd::prelude::*;
use vstd::string::StringExecFns;

use crate::strutil::{find_newline, spec_first_newline, spec_strip_cr, str_eq, strip_cr};

verus! {

/// The views of a list of lines.
pub open spec fn line_views(ls: Seq<String>) -> Seq<Seq<char>> {
    ls.map_values(|l: String| l@)
}

/// The lines of a text, as `str::lines` yields them: split at newlines,
/// one trailing carriage return stripped from each, no final empty line
/// after a trailing newline.
pub open spec fn spec_lines(s: Seq<char>) -> Seq<Seq<char>>
    decreases s.len(),
{
    if s.len() == 0 {
        Seq::empty()
    } else {
        match spec_first_newline(s) {
            None => seq![spec_strip_cr(s)],
            Some(i) => {
                if 0 <= i < s.len() {
                    seq![spec_strip_cr(s.take(i))] + spec_lines(s.skip(i + 1))
                } else {
                    seq![spec_strip_cr(s)]
                }
            },
        }
    }
}

/// Splits a text into its lines.
pub fn lines_of(s: &str) -> (r: Vec<String>)
    ensures
        line_views(r@) == spec_lines(s@),
    decreases s@.len(),
{
    let mut r: Vec<String> = Vec::new();
    let len = s.unicode_len();
    let mut pos: usize = 0;
    proof {
        assert(s@.skip(0) =~= s@);
        assert(line_views(r@) =~= Seq::<Seq<char>>::empty());
        assert(line_views(r@) + spec_lines(s@) =~= spec_lines(s@));
    }
    while pos < len
        invariant
            pos <= len,
            len == s@.len(),
            line_views(r@) + spec_lines(s@.skip(pos as int)) == spec_lines(s@),
        decreases len - pos,
    {
        let ghost suffix = s@.skip(pos as int);
        let ghost r0 = line_views(r@);
        let tail = s.substring_char(pos, len);
        proof {
            assert(tail@ =~= suffix);
        }
        match find_newline(tail) {
            Some(j) => {
                proof {
                    crate::strutil::lemma_first_newline_bounds(tail@);
                }
                let head = tail.substring_char(0, j);
                proof {
                    assert(head@ =~= suffix.take(j as int));
                }
                r.push(strip_cr(head));
                proof {
                    assert(line_views(r@) =~= r0.push(spec_strip_cr(suffix.take(j as int))));
                    assert(suffix.skip(j + 1) =~= s@.skip(pos + j + 1));
                    assert(spec_lines(suffix) == seq![spec_strip_cr(suffix.take(j as int))]
                        + spec_lines(s@.skip(pos + j + 1)));
                    assert(r0 + spec_lines(suffix)
                        =~= line_views(r@) + spec_lines(s@.skip(pos + j + 1)));
                }
                pos = pos + j + 1;
            },
            None => {
                r.push(strip_cr(tail));
                proof {
                    assert(line_views(r@) =~= r0.push(spec_strip_cr(suffix)));
                    assert(spec_lines(suffix) == seq![spec_strip_cr(suffix)]);
                    assert(s@.skip(len as int) =~= Seq::<char>::empty());
                    assert(r0 + spec_lines(suffix)
                        =~= line_views(r@) + spec_lines(s@.skip(len as int)));
                }
                pos = len;
            },
        }
    }
    proof {
        assert(s@.skip(len as int) =~= Seq::<char>::empty());
        assert(line_views(r@) + Seq::<Seq<char>>::empty() =~= line_views(r@));
    }
    r
}

/// The entries the harness keeps in the project's `.gitignore`.
pub open spec fn spec_gitignore_entries() -> Seq<Seq<char>> {
    seq![".ariana/"@, ".traces/"@, ".ariana_saved_traces/"@, ".vault_secret_key"@]
}

/// The entries of `es` that are not yet lines, in order.
pub open spec fn spec_missing(lines: Seq<Seq<char>>, es: Seq<Seq<char>>) -> Seq<Seq<char>>
    decreases es.len(),
{
    if es.len() == 0 {
        Seq::empty()
    } else if lines.contains(es[0]) {
        spec_missing(lines, es.drop_first())
    } else {
        seq![es[0]] + spec_missing(lines, es.drop_first())
    }
}

/// Lines joined with newlines, with a final newline.
pub open spec fn spec_joined(ls: Seq<Seq<char>>) -> Seq<char> {
    spec_join_core(ls) + seq!['\n']
}

/// Lines joined with newlines.
pub open spec fn spec_join_core(ls: Seq<Seq<char>>) -> Seq<char>
    decreases ls.len(),
{
    if ls.len() == 0 {
        Seq::empty()
    } else {
        ls[0] + spec_join_more(ls.drop_first())
    }
}

/// The continuation of a join: a newline before each further line.
pub open spec fn spec_join_more(ls: Seq<Seq<char>>) -> Seq<char>
    decreases ls.len(),
{
    if ls.len() == 0 {
        Seq::empty()
    } else {
        seq!['\n'] + ls[0] + spec_join_more(ls.drop_first())
    }
}

/// Whether `e` is one of the lines.
fn contains_line(lines: &Vec<String>, e: &str) -> (r: bool)
    ensures
        r == line_views(lines@).contains(e@),
{
    let mut i: usize = 0;
    while i < lines.len()
        invariant
            i <= lines@.len(),
            forall|k: int| 0 <= k < i ==> line_views(lines@)[k] != e@,
        decreases lines@.len() - i,
    {
        if str_eq(lines[i].as_str(), e) {
            assert(line_views(lines@)[i as int] == e@);
            return true;
        }
        i = i + 1;
    }
    assert(forall|k: int| 0 <= k < line_views(lines@).len() ==> line_views(lines@)[k] != e@);
    false
}

/// Joins lines with newlines and a final newline.
fn join_lines(lines: &Vec<String>) -> (r: String)
    ensures
        r@ == spec_joined(line_views(lines@)),
{
    let mut r = String::new();
    if lines.len() == 0 {
        r.append("\n");
        proof {
            reveal_strlit("\n");
            assert(r@ =~= spec_joined(line_views(lines@)));
        }
        return r;
    }
    r.append(lines[0].as_str());
    let mut i: usize = 1;
    proof {
        assert(line_views(lines@).skip(1) =~= line_views(lines@).drop_first());
        assert(r@ + spec_join_more(line_views(lines@).skip(1))
            =~= spec_join_core(line_views(lines@)));
    }
    while i < lines.len()
        invariant
            1 <= i <= lines@.len(),
            r@ + spec_join_more(line_views(lines@).skip(i as int))
                == spec_join_core(line_views(lines@)),
        decreases lines@.len() - i,
    {
        let ghost r0 = r@;
        proof {
            assert(line_views(lines@).skip(i as int)[0] == line_views(lines@)[i as int]);
            assert(line_views(lines@).skip(i as int).drop_first()
                =~= line_views(lines@).skip(i + 1));
        }
        r.append("\n");
        r.append(lines[i].as_str());
        proof {
            reveal_strlit("\n");
            assert(r@ =~= r0 + seq!['\n'] + lines@[i as int]@);
            assert(r0 + spec_join_more(line_views(lines@).skip(i as int))
                =~= r@ + spec_join_more(line_views(lines@).skip(i + 1)));
        }
        i = i + 1;
    }
    proof {
        assert(line_views(lines@).skip(lines@.len() as int) =~= Seq::<Seq<char>>::empty());
        assert(r@ + Seq::<char>::empty() =~= r@);
    }
    r.append("\n");
    proof {
        reveal_strlit("\n");
        assert(r@ =~= spec_joined(line_views(lines@)));
    }
    r
}

/// Amends a `.gitignore`: given the file's content (or `None` when there
/// is no file), returns the content to write — the existing lines followed
/// by the missing entries — or `None` when every entry is already present
/// and the file is left untouched.
pub fn amended_gitignore(existing: Option<&String>) -> (r: Option<String>)
    ensures
        match existing {
            None => match r {
                Some(c) => c@ == spec_joined(spec_gitignore_entries()),
                None => false,
            },
            Some(content) => {
                let ls = spec_lines(content@);
                let miss = spec_missing(ls, spec_gitignore_entries());
                match r {
                    None => miss.len() == 0,
                    Some(c) => miss.len() > 0 && c@ == spec_joined(ls + miss),
                }
            },
        },
{
    let ghost entries = spec_gitignore_entries();
    match existing {
        None => {
            let mut lines: Vec<String> = Vec::new();
            lines.push(".ariana/".to_owned());
            lines.push(".traces/".to_owned());
            lines.push(".ariana_saved_traces/".to_owned());
            lines.push(".vault_secret_key".to_owned());
            proof {
                assert(line_views(lines@) =~= entries);
            }
            Some(join_lines(&lines))
        },
        Some(content) => {
            let mut lines = lines_of(content.as_str());
            let ghost ls = line_views(lines@);
            let b1 = contains_line(&lines, ".ariana/");
            let b2 = contains_line(&lines, ".traces/");
            let b3 = contains_line(&lines, ".ariana_saved_traces/");
            let b4 = contains_line(&lines, ".vault_secret_key");
            let ghost miss = spec_missing(ls, entries);
            let ghost t1 = entries.drop_first();
            let ghost t2 = t1.drop_first();
            let ghost t3 = t2.drop_first();
            let ghost t4 = t3.drop_first();
            proof {
                assert(entries[0] == ".ariana/"@);
                assert(t1[0] == ".traces/"@);
                assert(t2[0] == ".ariana_saved_traces/"@);
                assert(t3[0] == ".vault_secret_key"@);
                assert(t4.len() == 0);
                assert(spec_missing(ls, t4) == Seq::<Seq<char>>::empty());
                assert(spec_missing(ls, t3) == (if b4 {
                    Seq::<Seq<char>>::empty()
                } else {
                    seq![".vault_secret_key"@]
                }));
                assert(spec_missing(ls, t2) == (if b3 {
                    spec_missing(ls, t3)
                } else {
                    seq![".ariana_saved_traces/"@] + spec_missing(ls, t3)
                }));
                assert(spec_missing(ls, t1) == (if b2 {
                    spec_missing(ls, t2)
                } else {
                    seq![".traces/"@] + spec_missing(ls, t2)
                }));
                assert(miss == (if b1 {
                    spec_missing(ls, t1)
                } else {
                    seq![".ariana/"@] + spec_missing(ls, t1)
                }));
            }
            if b1 && b2 && b3 && b4 {
                proof {
                    assert(miss =~= Seq::<Seq<char>>::empty());
                }
                None
            } else {
                if !b1 {
                    lines.push(".ariana/".to_owned());
                }
                if !b2 {
                    lines.push(".traces/".to_owned());
                }
                if !b3 {
                    lines.push(".ariana_saved_traces/".to_owned());
                }
                if !b4 {
                    lines.push(".vault_secret_key".to_owned());
                }
                proof {
                    assert(line_views(lines@) =~= ls + miss);
                    assert(miss.len() > 0);
                }
                Some(join_lines(&lines))
            }
        },
    }
}

} // verus!
