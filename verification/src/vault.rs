//! The vault secret key file: written at run start so the recap command
//! can recover the vault, read back by taking its first line.

use vstd::prelude::*;
use vstd::string::StringExecFns;

use crate::strutil::{lemma_first_newline_bounds, spec_first_newline, strip_cr};

verus! {

/// The content written to `.vault_secret_key`: the key, then a warning
/// line.
pub open spec fn spec_vault_key_file(key: Seq<char>) -> Seq<char> {
    key + "\nDO NOT SHARE THE ABOVE KEY WITH ANYONE"@
}

/// Builds the content of the vault secret key file.
pub fn vault_key_file_content(key: &str) -> (r: String)
    ensures
        r@ == spec_vault_key_file(key@),
{
    let mut r = key.to_owned();
    r.append("\nDO NOT SHARE THE ABOVE KEY WITH ANYONE");
    r
}

/// The first line of the key file: the characters before the first
/// newline (all of them when there is none), with one trailing carriage
/// return stripped; an empty file has no first line.
pub open spec fn spec_first_line(s: Seq<char>) -> Option<Seq<char>> {
    if s.len() == 0 {
        None
    } else {
        let head = match spec_first_newline(s) {
            None => s,
            Some(i) => s.take(i),
        };
        if head.len() > 0 && head[head.len() - 1] == '\r' {
            Some(head.drop_last())
        } else {
            Some(head)
        }
    }
}

/// Reads the vault key out of the key file's content: its first line.
pub fn read_vault_key(content: &str) -> (r: Option<String>)
    ensures
        match r {
            None => spec_first_line(content@).is_none(),
            Some(k) => spec_first_line(content@) == Some(k@),
        },
{
    let len = content.unicode_len();
    if len == 0 {
        return None;
    }
    let mut i: usize = 0;
    while i < len
        invariant
            i <= len,
            len == content@.len(),
            forall|j: int| 0 <= j < i ==> content@[j] != '\n',
        decreases len - i,
    {
        if content.get_char(i) == '\n' {
            proof {
                lemma_first_newline_bounds(content@);
                match spec_first_newline(content@) {
                    None => {
                        assert(content@[i as int] == '\n');
                        assert(false);
                    },
                    Some(k) => {
                        if k < i {
                            assert(content@[k] == '\n');
                            assert(false);
                        }
                        if k > i {
                            assert(content@[i as int] != '\n');
                            assert(false);
                        }
                    },
                }
            }
            let head = content.substring_char(0, i);
            return Some(strip_cr(head));
        }
        i = i + 1;
    }
    proof {
        lemma_first_newline_bounds(content@);
        match spec_first_newline(content@) {
            None => {},
            Some(k) => {
                assert(content@[k] == '\n');
                assert(false);
            },
        }
        assert(content@.take(content@.len() as int) =~= content@);
    }
    let head = content.substring_char(0, len);
    Some(strip_cr(head))
}

} // verus!
