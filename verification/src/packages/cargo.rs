//! Packages abstraction for Cargo.

use vstd::prelude::*;
use vstd::string::StrSliceExecFns;

use crate::command::{Command, Output, RunError};
use crate::os;
use crate::packages::{package_names, probe_outcome, views_of, Package, PackagesError};
use crate::strutil::{first_token_str, space_of, token_to, trim_str, trimmed};

verus! {

/// The package name a line of `cargo install --list` output names, if any:
/// indented lines and blank lines name none, any other line names its first
/// token.
pub open spec fn cargo_line(l: Seq<char>) -> Option<Seq<char>> {
    if l.len() > 0 && space_of(l[0]) {
        None
    } else if trimmed(l).len() == 0 {
        None
    } else {
        Some(token_to(trimmed(l)))
    }
}

/// The package names a whole listing names, in order.
pub open spec fn cargo_names(lines: Seq<Seq<char>>) -> Seq<Seq<char>>
    decreases lines.len(),
{
    if lines.len() == 0 {
        Seq::empty()
    } else {
        cargo_names(lines.drop_last()) + match cargo_line(lines.last()) {
            Some(n) => seq![n],
            None => Seq::empty(),
        }
    }
}

/// A cargo command wrapper.
#[derive(Debug)]
pub struct Cargo {
    /// The base cargo command.
    pub cargo: Command,
}

impl Cargo {
    /// The base command is plain `cargo`.
    pub open spec fn wf(&self) -> bool {
        self.cargo.name@ == "cargo"@ && self.cargo.args@.len() == 0
            && self.cargo.working_directory is None
    }

    /// Create a new cargo command wrapper.
    pub fn new() -> (r: Self)
        ensures
            r.wf(),
    {
        Cargo { cargo: Command::new(os::command("cargo")) }
    }

    /// The command that probes whether cargo is available.
    pub fn test_command(&self) -> (r: Command)
        ensures
            r.name@ == self.cargo.name@,
            views_of(r.args@) =~= seq!["--version"@],
            r.working_directory is None,
    {
        let mut cargo = Command::new(self.cargo.name.clone());
        let version: &str = "--version";
        cargo.arg(version.to_owned());
        cargo
    }

    /// Whether cargo is available, decided from the probe's outcome.
    pub fn test(&self, probe: Result<Output, RunError>) -> (r: Result<bool, PackagesError>)
        ensures
            match probe {
                Ok(output) => r == Ok::<bool, PackagesError>(output.success),
                Err(RunError::NotFound) => r == Ok::<bool, PackagesError>(false),
                Err(RunError::Failed(message)) => r == Err::<bool, PackagesError>(
                    PackagesError::CommandFailed(message),
                ),
            },
    {
        probe_outcome(probe)
    }

    /// The command that installs the given packages.
    pub fn install_packages(&self, packages: &Vec<String>) -> (r: Command)
        ensures
            r.name@ == self.cargo.name@,
            views_of(r.args@) =~= seq!["install"@] + views_of(packages@),
            r.working_directory is None,
    {
        let mut cargo = Command::new(self.cargo.name.clone());
        let install: &str = "install";
        cargo.arg(install.to_owned());
        cargo.args(packages);
        proof {
            assert(views_of(cargo.args@) =~= seq!["install"@] + views_of(packages@));
        }
        cargo
    }

    /// The command whose output lists the installed packages.
    pub fn list_command(&self) -> (r: Command)
        ensures
            r.name@ == self.cargo.name@,
            views_of(r.args@) =~= seq!["install"@, "--list"@],
            r.working_directory is None,
    {
        let mut cargo = Command::new(self.cargo.name.clone());
        let install: &str = "install";
        let list: &str = "--list";
        cargo.arg(install.to_owned());
        cargo.arg(list.to_owned());
        cargo
    }

    /// The packages that the given `cargo install --list` output lists.
    pub fn list_installed(&self, lines: &Vec<String>) -> (r: Result<Vec<Package>, PackagesError>)
        ensures
            r matches Ok(v) && package_names(v@) == cargo_names(lines.deep_view()),
    {
        let mut out: Vec<Package> = Vec::new();
        let mut i: usize = 0;
        let ghost all = lines.deep_view();
        while i < lines.len()
            invariant
                0 <= i <= lines@.len(),
                all == lines.deep_view(),
                all.len() == lines@.len(),
                package_names(out@) == cargo_names(all.subrange(0, i as int)),
            decreases lines@.len() - i,
        {
            proof {
                assert(all.subrange(0, i + 1).drop_last() =~= all.subrange(0, i as int));
                assert(all.subrange(0, i + 1).last() == all[i as int]);
                assert(all[i as int] == lines@[i as int]@);
            }
            let line = lines[i].as_str();
            let n = line.unicode_len();
            let skip = n > 0 && crate::strutil::char_is_space(line.get_char(0));
            if !skip {
                let t = trim_str(line);
                if t.as_str().unicode_len() > 0 {
                    let name = first_token_str(t.as_str());
                    let ghost before = out@;
                    out.push(Package { name });
                    proof {
                        assert(package_names(out@) =~= package_names(before) + seq![
                            token_to(trimmed(all[i as int])),
                        ]);
                    }
                }
            }
            proof {
                assert(package_names(out@) =~= cargo_names(all.subrange(0, i + 1)));
            }
            i = i + 1;
        }
        proof {
            assert(all.subrange(0, all.len() as int) =~= all);
        }
        Ok(out)
    }
}

/// Packages abstraction for Cargo.
#[derive(Debug)]
pub struct PackageManager {
    /// The wrapped cargo command.
    pub cargo: Cargo,
}

impl PackageManager {
    /// Construct a new cargo package manager.
    pub fn new() -> (r: Self)
        ensures
            r.cargo.wf(),
    {
        PackageManager { cargo: Cargo::new() }
    }
}

impl super::PackageManager for PackageManager {
    open spec fn name_spec(&self) -> Seq<char> {
        "cargo"@
    }

    fn primary(&self) -> bool {
        true
    }

    fn needs_interaction(&self) -> bool {
        false
    }

    fn key(&self) -> Option<&str> {
        None
    }

    fn name(&self) -> (r: &str) {
        "cargo"
    }

    fn test_command(&self) -> Command {
        self.cargo.test_command()
    }

    fn test(&self, probe: Result<Output, RunError>) -> (r: Result<bool, PackagesError>) {
        self.cargo.test(probe)
    }

    fn list_command(&self) -> Command {
        self.cargo.list_command()
    }

    fn list_packages(&self, lines: &Vec<String>) -> Result<Vec<Package>, PackagesError> {
        self.cargo.list_installed(lines)
    }

    fn install_packages(&self, packages: &Vec<String>) -> Vec<Command> {
        let mut out: Vec<Command> = Vec::new();
        out.push(self.cargo.install_packages(packages));
        out
    }
}

} // verus!
