//! Packages abstraction for Ruby.

use vstd::prelude::*;
use vstd::string::StrSliceExecFns;

use crate::command::{Command, Output, RunError};
use crate::os;
use crate::packages::{package_names, probe_outcome, views_of, Package, PackagesError};
use crate::strutil::{first_token_str, token_to, trim_str, trimmed};

verus! {

/// The package name a line of `gem list` output names, if any: blank lines
/// name none, any other line names its first token.
pub open spec fn gem_line(l: Seq<char>) -> Option<Seq<char>> {
    if trimmed(l).len() == 0 {
        None
    } else {
        Some(token_to(trimmed(l)))
    }
}

/// The package names a whole listing names, in order.
pub open spec fn gem_names(lines: Seq<Seq<char>>) -> Seq<Seq<char>>
    decreases lines.len(),
{
    if lines.len() == 0 {
        Seq::empty()
    } else {
        gem_names(lines.drop_last()) + match gem_line(lines.last()) {
            Some(n) => seq![n],
            None => Seq::empty(),
        }
    }
}

/// A gem command wrapper.
#[derive(Debug)]
pub struct Gem {
    /// The base gem command.
    pub gem: Command,
}

impl Gem {
    /// The base command is plain `gem`.
    pub open spec fn wf(&self) -> bool {
        self.gem.name@ == "gem"@ && self.gem.args@.len() == 0
            && self.gem.working_directory is None
    }

    /// Create a new gem command wrapper.
    pub fn new() -> (r: Self)
        ensures
            r.wf(),
    {
        Gem { gem: Command::new(os::command("gem")) }
    }

    /// The command that probes whether gem is available.
    pub fn test_command(&self) -> (r: Command)
        ensures
            r.name@ == self.gem.name@,
            views_of(r.args@) =~= seq!["--version"@],
            r.working_directory is None,
    {
        let mut gem = Command::new(self.gem.name.clone());
        let version: &str = "--version";
        gem.arg(version.to_owned());
        gem
    }

    /// Whether gem is available, decided from the probe's outcome.
    pub fn test(&self, probe: Result<Output, RunError>) -> (r: Result<bool, PackagesError>)
        ensures
            match probe {
                Ok(output) => r == Ok::<bool, PackagesError>(output.success),
                Err(RunError::NotFound) => r == Ok::<bool, PackagesError>(false),
                Err(RunError::Failed(message)) => r == Err::<bool, PackagesError>(
                    PackagesError::CommandFailed(message),
                ),
            },
    {
        probe_outcome(probe)
    }

    /// The command that installs the given packages for the current user.
    pub fn install_packages(&self, packages: &Vec<String>) -> (r: Command)
        ensures
            r.name@ == self.gem.name@,
            views_of(r.args@) =~= seq!["install"@, "--user-install"@] + views_of(packages@),
            r.working_directory is None,
    {
        let mut gem = Command::new(self.gem.name.clone());
        let install: &str = "install";
        let user_install: &str = "--user-install";
        gem.arg(install.to_owned());
        gem.arg(user_install.to_owned());
        gem.args(packages);
        proof {
            assert(views_of(gem.args@) =~= seq!["install"@, "--user-install"@] + views_of(
                packages@,
            ));
        }
        gem
    }

    /// The command whose output lists the installed packages.
    pub fn list_command(&self) -> (r: Command)
        ensures
            r.name@ == self.gem.name@,
            views_of(r.args@) =~= seq!["list"@, "-q"@, "-l"@],
            r.working_directory is None,
    {
        let mut gem = Command::new(self.gem.name.clone());
        let list: &str = "list";
        let q: &str = "-q";
        let l: &str = "-l";
        gem.arg(list.to_owned());
        gem.arg(q.to_owned());
        gem.arg(l.to_owned());
        gem
    }

    /// The packages that the given `gem list` output lists.
    pub fn list_installed(&self, lines: &Vec<String>) -> (r: Result<Vec<Package>, PackagesError>)
        ensures
            r matches Ok(v) && package_names(v@) == gem_names(lines.deep_view()),
    {
        let mut out: Vec<Package> = Vec::new();
        let mut i: usize = 0;
        let ghost all = lines.deep_view();
        while i < lines.len()
            invariant
                0 <= i <= lines@.len(),
                all == lines.deep_view(),
                all.len() == lines@.len(),
                package_names(out@) == gem_names(all.subrange(0, i as int)),
            decreases lines@.len() - i,
        {
            proof {
                assert(all.subrange(0, i + 1).drop_last() =~= all.subrange(0, i as int));
                assert(all.subrange(0, i + 1).last() == all[i as int]);
                assert(all[i as int] == lines@[i as int]@);
            }
            let line = lines[i].as_str();
            let t = trim_str(line);
            if t.as_str().unicode_len() > 0 {
                let name = first_token_str(t.as_str());
                let ghost before = out@;
                out.push(Package { name });
                proof {
                    assert(package_names(out@) =~= package_names(before) + seq![
                        token_to(trimmed(all[i as int])),
                    ]);
                }
            }
            proof {
                assert(package_names(out@) =~= gem_names(all.subrange(0, i + 1)));
            }
            i = i + 1;
        }
        proof {
            assert(all.subrange(0, all.len() as int) =~= all);
        }
        Ok(out)
    }
}

/// Packages abstraction for Ruby.
#[derive(Debug)]
pub struct PackageManager {
    /// The wrapped gem command.
    pub gem: Gem,
}

impl PackageManager {
    /// Construct a new ruby package manager.
    pub fn new() -> (r: Self)
        ensures
            r.gem.wf(),
    {
        PackageManager { gem: Gem::new() }
    }
}

impl super::PackageManager for PackageManager {
    open spec fn name_spec(&self) -> Seq<char> {
        "gem"@
    }

    fn primary(&self) -> bool {
        true
    }

    fn needs_interaction(&self) -> bool {
        false
    }

    fn key(&self) -> Option<&str> {
        None
    }

    fn name(&self) -> (r: &str) {
        "gem"
    }

    fn test_command(&self) -> Command {
        self.gem.test_command()
    }

    fn test(&self, probe: Result<Output, RunError>) -> (r: Result<bool, PackagesError>) {
        self.gem.test(probe)
    }

    fn list_command(&self) -> Command {
        self.gem.list_command()
    }

    fn list_packages(&self, lines: &Vec<String>) -> Result<Vec<Package>, PackagesError> {
        self.gem.list_installed(lines)
    }

    fn install_packages(&self, packages: &Vec<String>) -> Vec<Command> {
        let mut out: Vec<Command> = Vec::new();
        out.push(self.gem.install_packages(packages));
        out
    }
}

} // verus!
