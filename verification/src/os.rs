//! Unix-flavoured conventions for naming executables.

use vstd::prelude::*;

verus! {

/// Convert into an executable path. On unix this is the path itself.
pub fn exe_path(path: &str) -> (r: String)
    ensures
        r@ == path@,
{
    path.to_owned()
}

/// Convert the given command into a program path. On unix no extension is
/// added.
pub fn command(base: &str) -> (r: String)
    ensures
        r@ == base@,
{
    base.to_owned()
}

/// Detect the git command.
pub fn detect_git() -> (r: String)
    ensures
        r@ == "git"@,
{
    let git: &str = "git";
    git.to_owned()
}

} // verus!
