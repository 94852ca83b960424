//! Small verified string helpers used by the path classifier and the
//! workspace preparer: equality, character search, and ASCII lowercasing
//! over `&str` values viewed as sequences of characters.

use vstd::prelude::*;

verus! {

/// True iff the two strings hold the same characters.
pub fn str_eq(a: &str, b: &str) -> (r: bool)
    ensures
        r == (a@ == b@),
{
    let la = a.unicode_len();
    let lb = b.unicode_len();
    if la != lb {
        assert(a@ != b@) by {
            assert(a@.len() != b@.len());
        }
        return false;
    }
    let mut i: usize = 0;
    while i < la
        invariant
            i <= la,
            la == a@.len(),
            la == b@.len(),
            forall|j: int| 0 <= j < i ==> a@[j] == b@[j],
        decreases la - i,
    {
        if a.get_char(i) != b.get_char(i) {
            return false;
        }
        i = i + 1;
    }
    assert(a@ =~= b@);
    true
}

/// True iff `s` contains the character `c`.
pub fn contains_char(s: &str, c: char) -> (r: bool)
    ensures
        r == s@.contains(c),
{
    let len = s.unicode_len();
    let mut i: usize = 0;
    while i < len
        invariant
            i <= len,
            len == s@.len(),
            forall|j: int| 0 <= j < i ==> s@[j] != c,
        decreases len - i,
    {
        if s.get_char(i) == c {
            assert(s@.contains(c));
            return true;
        }
        i = i + 1;
    }
    assert(!s@.contains(c)) by {
        assert(forall|j: int| 0 <= j < s@.len() ==> s@[j] != c);
    }
    false
}

/// True iff `s` is non-empty and begins with the character `c`.
pub fn starts_with_char(s: &str, c: char) -> (r: bool)
    ensures
        r == (s@.len() > 0 && s@[0] == c),
{
    let len = s.unicode_len();
    if len == 0 {
        return false;
    }
    s.get_char(0) == c
}

/// ASCII lowercasing of a single character; other characters are unchanged.
pub open spec fn spec_lower_char(c: char) -> char {
    if 'A' <= c && c <= 'Z' {
        ((c as u8) + 32) as char
    } else {
        c
    }
}

/// ASCII lowercasing of a character sequence.
pub open spec fn spec_lower(s: Seq<char>) -> Seq<char> {
    s.map_values(|c: char| spec_lower_char(c))
}

/// Lowercases the ASCII letters of `s`, leaving all other characters alone.
pub fn to_ascii_lowercase(s: &str) -> (r: Vec<char>)
    ensures
        r@ == spec_lower(s@),
{
    let len = s.unicode_len();
    let mut r: Vec<char> = Vec::new();
    let mut i: usize = 0;
    while i < len
        invariant
            i <= len,
            len == s@.len(),
            r@ == spec_lower(s@.take(i as int)),
        decreases len - i,
    {
        let c = s.get_char(i);
        let lc = if 'A' <= c && c <= 'Z' {
            ((c as u8) + 32) as char
        } else {
            c
        };
        assert(lc == spec_lower_char(c));
        r.push(lc);
        assert(s@.take(i + 1) =~= s@.take(i as int).push(c));
        assert(r@ =~= spec_lower(s@.take(i + 1)));
        i = i + 1;
    }
    assert(s@.take(len as int) =~= s@);
    r
}

/// The position of the first newline of `s`, if any.
pub open spec fn spec_first_newline(s: Seq<char>) -> Option<int>
    decreases s.len(),
{
    if s.len() == 0 {
        None
    } else if s[0] == '\n' {
        Some(0)
    } else {
        match spec_first_newline(s.drop_first()) {
            None => None,
            Some(i) => Some(i + 1),
        }
    }
}

/// What `spec_first_newline` finds is the first newline indeed.
pub proof fn lemma_first_newline_bounds(s: Seq<char>)
    ensures
        match spec_first_newline(s) {
            None => forall|j: int| 0 <= j < s.len() ==> s[j] != '\n',
            Some(i) => 0 <= i < s.len() && s[i] == '\n' && forall|j: int|
                0 <= j < i ==> s[j] != '\n',
        },
    decreases s.len(),
{
    if s.len() > 0 && s[0] != '\n' {
        lemma_first_newline_bounds(s.drop_first());
        match spec_first_newline(s.drop_first()) {
            None => {
                assert forall|j: int| 0 <= j < s.len() implies s[j] != '\n' by {
                    if j > 0 {
                        assert(s.drop_first()[j - 1] == s[j]);
                    }
                }
            },
            Some(i) => {
                assert(s.drop_first()[i] == s[i + 1]);
                assert forall|j: int| 0 <= j < i + 1 implies s[j] != '\n' by {
                    if j > 0 {
                        assert(s.drop_first()[j - 1] == s[j]);
                    }
                }
            },
        }
    }
}

/// Finds the first newline of `s`, if any.
pub fn find_newline(s: &str) -> (r: Option<usize>)
    ensures
        match r {
            Some(i) => spec_first_newline(s@) == Some(i as int),
            None => spec_first_newline(s@).is_none(),
        },
{
    let len = s.unicode_len();
    let mut i: usize = 0;
    while i < len
        invariant
            i <= len,
            len == s@.len(),
            forall|j: int| 0 <= j < i ==> s@[j] != '\n',
        decreases len - i,
    {
        if s.get_char(i) == '\n' {
            proof {
                lemma_first_newline_bounds(s@);
                match spec_first_newline(s@) {
                    None => {
                        assert(s@[i as int] == '\n');
                        assert(false);
                    },
                    Some(k) => {
                        if k < i {
                            assert(s@[k] == '\n');
                            assert(false);
                        }
                        if k > i {
                            assert(s@[i as int] != '\n');
                            assert(false);
                        }
                    },
                }
            }
            return Some(i);
        }
        i = i + 1;
    }
    proof {
        lemma_first_newline_bounds(s@);
        match spec_first_newline(s@) {
            None => {},
            Some(k) => {
                assert(s@[k] == '\n');
                assert(false);
            },
        }
    }
    None
}

/// `s` with one trailing carriage return stripped.
pub open spec fn spec_strip_cr(s: Seq<char>) -> Seq<char> {
    if s.len() > 0 && s[s.len() - 1] == '\r' {
        s.drop_last()
    } else {
        s
    }
}

/// Strips one trailing carriage return.
pub fn strip_cr(s: &str) -> (r: String)
    ensures
        r@ == spec_strip_cr(s@),
{
    let len = s.unicode_len();
    if len > 0 && s.get_char(len - 1) == '\r' {
        let t = s.substring_char(0, len - 1);
        assert(t@ =~= s@.drop_last());
        t.to_owned()
    } else {
        s.to_owned()
    }
}

/// True iff the characters of `v` are exactly the view of `b`.
pub fn chars_eq_str(v: &Vec<char>, b: &str) -> (r: bool)
    ensures
        r == (v@ == b@),
{
    let lb = b.unicode_len();
    if v.len() != lb {
        return false;
    }
    let mut i: usize = 0;
    while i < lb
        invariant
            i <= lb,
            lb == b@.len(),
            lb == v@.len(),
            forall|j: int| 0 <= j < i ==> v@[j] == b@[j],
        decreases lb - i,
    {
        if v[i] != b.get_char(i) {
            return false;
        }
        i = i + 1;
    }
    assert(v@ =~= b@);
    true
}

} // verus!
