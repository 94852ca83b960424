//! Path classifier: pure decisions, per directory or file name, on whether
//! the workspace preparer explores a directory, mirrors it, instruments a
//! file, or copies it instead of symlinking it.

use vstd::prelude::*;

use crate::strutil::{chars_eq_str, contains_char, spec_lower, starts_with_char, str_eq, to_ascii_lowercase};

verus! {

/// Directory names whose subtrees are never explored.
pub open spec fn spec_explore_skip(name: Seq<char>) -> bool {
    ||| name == "node_modules"@
    ||| name == ".git"@
    ||| name == ".ariana"@
    ||| name == "dist"@
    ||| name == "build"@
    ||| name == "target"@
    ||| name == ".ariana_saved_traces"@
    ||| name == ".traces"@
    ||| name == "venv"@
    ||| name == "site-packages"@
    ||| name == "__pycache__"@
    ||| name == ".ariana-saved-traces"@
}

/// The walk descends into a directory iff its name is not on the skip list,
/// holds no `.`, and does not start with `_`.
pub open spec fn spec_should_explore(name: Seq<char>) -> bool {
    &&& !spec_explore_skip(name)
    &&& !name.contains('.')
    &&& !(name.len() > 0 && name[0] == '_')
}

/// Decides whether the walk descends into a directory of this name.
pub fn should_explore_directory(dir_name: &str) -> (r: bool)
    ensures
        r == spec_should_explore(dir_name@),
{
    if str_eq(dir_name, "node_modules")
        || str_eq(dir_name, ".git")
        || str_eq(dir_name, ".ariana")
        || str_eq(dir_name, "dist")
        || str_eq(dir_name, "build")
        || str_eq(dir_name, "target")
        || str_eq(dir_name, ".ariana_saved_traces")
        || str_eq(dir_name, ".traces")
        || str_eq(dir_name, "venv")
        || str_eq(dir_name, "site-packages")
        || str_eq(dir_name, "__pycache__")
        || str_eq(dir_name, ".ariana-saved-traces")
    {
        return false;
    }
    !contains_char(dir_name, '.') && !starts_with_char(dir_name, '_')
}

/// A directory is a mirror candidate unless its name is one of the
/// harness's own bookkeeping directories.
pub open spec fn spec_should_mirror_dir(name: Seq<char>) -> bool {
    &&& name != ".git"@
    &&& name != ".ariana"@
    &&& name != ".ariana_saved_traces"@
    &&& name != ".traces"@
    &&& name != ".ariana-saved-traces"@
}

/// Decides whether a directory of this name may be mirrored by link or copy.
pub fn should_copy_or_link_directory(dir_name: &str) -> (r: bool)
    ensures
        r == spec_should_mirror_dir(dir_name@),
{
    !(str_eq(dir_name, ".git")
        || str_eq(dir_name, ".ariana")
        || str_eq(dir_name, ".ariana_saved_traces")
        || str_eq(dir_name, ".traces")
        || str_eq(dir_name, ".ariana-saved-traces"))
}

/// The extensions, after ASCII lowercasing, whose files are eligible for
/// instrumentation.
pub open spec fn spec_instrumentable_ext(ext: Seq<char>) -> bool {
    ||| spec_lower(ext) == "js"@
    ||| spec_lower(ext) == "ts"@
    ||| spec_lower(ext) == "tsx"@
    ||| spec_lower(ext) == "jsx"@
    ||| spec_lower(ext) == "py"@
}

/// The extensions of asset files that must be copied rather than symlinked,
/// because downstream tooling may reject symlinked assets.
pub open spec fn spec_copy_not_link_ext(ext: Seq<char>) -> bool {
    ||| spec_lower(ext) == "html"@
    ||| spec_lower(ext) == "htm"@
    ||| spec_lower(ext) == "css"@
    ||| spec_lower(ext) == "sass"@
    ||| spec_lower(ext) == "scss"@
    ||| spec_lower(ext) == "vue"@
    ||| spec_lower(ext) == "svelte"@
}

/// The bound under which a file may be instrumented: 4 MiB.
pub open spec fn spec_size_limit() -> u64 {
    4194304
}

/// Suffixes that exclude a file from instrumentation even when its
/// extension qualifies.
pub open spec fn spec_config_suffix(name: Seq<char>) -> bool {
    ||| name.len() >= 10 && name.skip(name.len() - 10) == ".config.js"@
    ||| name.len() >= 10 && name.skip(name.len() - 10) == ".config.ts"@
}

/// A file is instrumentable iff its extension (ASCII case-insensitive) is
/// one of the script extensions, it is smaller than 4 MiB, and its name
/// does not end in `.config.js` or `.config.ts`.
pub open spec fn spec_should_instrument(name: Seq<char>, ext: Option<Seq<char>>, size: u64) -> bool {
    &&& size < spec_size_limit()
    &&& match ext {
        Some(e) => spec_instrumentable_ext(e),
        None => false,
    }
    &&& !spec_config_suffix(name)
}

/// True iff the last `suffix.len()` characters of `name` are `suffix`.
fn ends_with_str(name: &str, suffix: &str) -> (r: bool)
    ensures
        r == (name@.len() >= suffix@.len()
            && name@.skip(name@.len() - suffix@.len()) == suffix@),
{
    let ln = name.unicode_len();
    let ls = suffix.unicode_len();
    if ln < ls {
        return false;
    }
    let mut i: usize = 0;
    while i < ls
        invariant
            i <= ls,
            ls <= ln,
            ln == name@.len(),
            ls == suffix@.len(),
            forall|j: int| 0 <= j < i ==> name@[ln - ls + j] == suffix@[j],
        decreases ls - i,
    {
        if name.get_char(ln - ls + i) != suffix.get_char(i) {
            assert(name@.skip(name@.len() - suffix@.len())[i as int] != suffix@[i as int]);
            return false;
        }
        i = i + 1;
    }
    assert(name@.skip(name@.len() - suffix@.len()) =~= suffix@);
    true
}

/// Decides whether a file may be sent for instrumentation, from its name,
/// its extension (as the filesystem reports it), and its size in bytes.
pub fn should_instrument_file(file_name: &str, extension: Option<&str>, size: u64) -> (r: bool)
    ensures
        r == spec_should_instrument(
            file_name@,
            match extension {
                Some(e) => Some(e@),
                None => None,
            },
            size,
        ),
{
    if size >= 4194304 {
        return false;
    }
    let ext_ok = match extension {
        Some(e) => {
            let low = to_ascii_lowercase(e);
            chars_eq_str(&low, "js")
                || chars_eq_str(&low, "ts")
                || chars_eq_str(&low, "tsx")
                || chars_eq_str(&low, "jsx")
                || chars_eq_str(&low, "py")
        },
        None => false,
    };
    if !ext_ok {
        return false;
    }
    proof {
        reveal_strlit(".config.js");
        reveal_strlit(".config.ts");
    }
    !(ends_with_str(file_name, ".config.js") || ends_with_str(file_name, ".config.ts"))
}

/// Decides whether a file of this extension must be copied rather than
/// symlinked.
pub fn should_copy_not_link(extension: Option<&str>) -> (r: bool)
    ensures
        r == match extension {
            Some(e) => spec_copy_not_link_ext(e@),
            None => false,
        },
{
    match extension {
        Some(e) => {
            let low = to_ascii_lowercase(e);
            chars_eq_str(&low, "html")
                || chars_eq_str(&low, "htm")
                || chars_eq_str(&low, "css")
                || chars_eq_str(&low, "sass")
                || chars_eq_str(&low, "scss")
                || chars_eq_str(&low, "vue")
                || chars_eq_str(&low, "svelte")
        },
        None => false,
    }
}

/// The classifier is pure: every decision is fixed by its arguments, so two
/// calls on the same inputs classify the same way.
pub proof fn lemma_classifier_pure(a: Seq<char>, b: Seq<char>)
    requires
        a == b,
    ensures
        spec_should_explore(a) == spec_should_explore(b),
        spec_should_mirror_dir(a) == spec_should_mirror_dir(b),
        spec_instrumentable_ext(a) == spec_instrumentable_ext(b),
        spec_copy_not_link_ext(a) == spec_copy_not_link_ext(b),
{
}

} // verus!
