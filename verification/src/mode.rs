//! Run-mode selection: which of the CLI's four modes a set of flags
//! chooses, whether a command is required, and which directory the child
//! runs in.

use vstd::prelude::*;

verus! {

/// The four modes of the harness.
#[derive(Clone, Copy, Debug, PartialEq, Eq, Structural)]
pub enum RunMode {
    /// Authenticate and exit.
    Login,
    /// Print a recap of the last vault and exit.
    Recap,
    /// Restore originals from the backup archive and exit.
    Restore,
    /// Prepare the workspace and run the command.
    Run,
}

/// The mode the flags select, in the precedence the CLI gives them:
/// login, then recap, then restore, then a normal run.
pub open spec fn spec_select_mode(login: bool, recap: bool, restore: bool) -> RunMode {
    if login {
        RunMode::Login
    } else if recap {
        RunMode::Recap
    } else if restore {
        RunMode::Restore
    } else {
        RunMode::Run
    }
}

/// Selects the run mode from the flags.
pub fn select_mode(login: bool, recap: bool, restore: bool) -> (r: RunMode)
    ensures
        r == spec_select_mode(login, recap, restore),
{
    if login {
        RunMode::Login
    } else if recap {
        RunMode::Recap
    } else if restore {
        RunMode::Restore
    } else {
        RunMode::Run
    }
}

/// A normal run without a command is a misuse: the harness prints usage
/// and exits with 1.
pub fn command_missing(mode: RunMode, command_len: usize) -> (r: bool)
    ensures
        r == (mode == RunMode::Run && command_len == 0),
{
    match mode {
        RunMode::Run => command_len == 0,
        _ => false,
    }
}

/// The directory the child runs in: the project root when instrumenting
/// in place, the mirror directory otherwise.
pub fn working_dir<'a>(inplace: bool, project_root: &'a str, ariana_dir: &'a str) -> (r: &'a str)
    ensures
        r@ == (if inplace {
            project_root@
        } else {
            ariana_dir@
        }),
{
    if inplace {
        project_root
    } else {
        ariana_dir
    }
}

} // verus!
