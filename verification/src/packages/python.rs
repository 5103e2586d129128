//! Packages abstraction for pip/pip3.

use vstd::prelude::*;
use vstd::string::StrSliceExecFns;

use crate::command::{Command, Output, RunError};
use crate::os;
use crate::packages::{package_names, probe_outcome, views_of, Package, PackagesError};
use crate::strutil::{first_token_str, token_to, trim_str, trimmed};

verus! {

/// The package name a line of `pip list` output names, if any: blank lines
/// name none, any other line names its first token.
pub open spec fn pip_line(l: Seq<char>) -> Option<Seq<char>> {
    if trimmed(l).len() == 0 {
        None
    } else {
        Some(token_to(trimmed(l)))
    }
}

/// The package names a whole listing names, in order.
pub open spec fn pip_names(lines: Seq<Seq<char>>) -> Seq<Seq<char>>
    decreases lines.len(),
{
    if lines.len() == 0 {
        Seq::empty()
    } else {
        pip_names(lines.drop_last()) + match pip_line(lines.last()) {
            Some(n) => seq![n],
            None => Seq::empty(),
        }
    }
}

/// A pip command wrapper.
#[derive(Debug)]
pub struct Pip {
    /// The base pip command.
    pub command: Command,
}

impl Pip {
    /// The base command carries no arguments.
    pub open spec fn wf(&self) -> bool {
        self.command.args@.len() == 0 && self.command.working_directory is None
    }

    /// Create a new pip command wrapper for the given program name, e.g.
    /// `pip` or `pip3`.
    pub fn new(name: &str) -> (r: Self)
        ensures
            r.wf(),
            r.command.name@ == name@,
    {
        Pip { command: Command::new(os::command(name)) }
    }

    /// The command that probes whether pip is available.
    pub fn test_command(&self) -> (r: Command)
        ensures
            r.name@ == self.command.name@,
            views_of(r.args@) =~= seq!["--version"@],
            r.working_directory is None,
    {
        let mut command = Command::new(self.command.name.clone());
        let version: &str = "--version";
        command.arg(version.to_owned());
        command
    }

    /// Whether pip is available, decided from the probe's outcome.
    pub fn test(&self, probe: Result<Output, RunError>) -> (r: Result<bool, PackagesError>)
        ensures
            match probe {
                Ok(output) => r == Ok::<bool, PackagesError>(output.success),
                Err(RunError::NotFound) => r == Ok::<bool, PackagesError>(false),
                Err(RunError::Failed(message)) => r == Err::<bool, PackagesError>(
                    PackagesError::CommandFailed(message),
                ),
            },
    {
        probe_outcome(probe)
    }

    /// The command that installs the given packages for the current user.
    pub fn install_packages(&self, packages: &Vec<String>) -> (r: Command)
        ensures
            r.name@ == self.command.name@,
            views_of(r.args@) =~= seq!["install"@, "--user"@] + views_of(packages@),
            r.working_directory is None,
    {
        let mut command = Command::new(self.command.name.clone());
        let install: &str = "install";
        let user: &str = "--user";
        command.arg(install.to_owned());
        command.arg(user.to_owned());
        command.args(packages);
        proof {
            assert(views_of(command.args@) =~= seq!["install"@, "--user"@] + views_of(packages@));
        }
        command
    }

    /// The command whose output lists the installed packages.
    pub fn list_command(&self) -> (r: Command)
        ensures
            r.name@ == self.command.name@,
            views_of(r.args@) =~= seq!["list"@, "--format=columns"@],
            r.working_directory is None,
    {
        let mut command = Command::new(self.command.name.clone());
        let list: &str = "list";
        let format: &str = "--format=columns";
        command.arg(list.to_owned());
        command.arg(format.to_owned());
        command
    }

    /// The packages that the given `pip list` output lists.
    pub fn list_installed(&self, lines: &Vec<String>) -> (r: Result<Vec<Package>, PackagesError>)
        ensures
            r matches Ok(v) && package_names(v@) == pip_names(lines.deep_view()),
    {
        let mut out: Vec<Package> = Vec::new();
        let mut i: usize = 0;
        let ghost all = lines.deep_view();
        while i < lines.len()
            invariant
                0 <= i <= lines@.len(),
                all == lines.deep_view(),
                all.len() == lines@.len(),
                package_names(out@) == pip_names(all.subrange(0, i as int)),
            decreases lines@.len() - i,
        {
            proof {
                assert(all.subrange(0, i + 1).drop_last() =~= all.subrange(0, i as int));
                assert(all.subrange(0, i + 1).last() == all[i as int]);
                assert(all[i as int] == lines@[i as int]@);
            }
            let line = lines[i].as_str();
            let t = trim_str(line);
            if t.as_str().unicode_len() > 0 {
                let name = first_token_str(t.as_str());
                let ghost before = out@;
                out.push(Package { name });
                proof {
                    assert(package_names(out@) =~= package_names(before) + seq![
                        token_to(trimmed(all[i as int])),
                    ]);
                }
            }
            proof {
                assert(package_names(out@) =~= pip_names(all.subrange(0, i + 1)));
            }
            i = i + 1;
        }
        proof {
            assert(all.subrange(0, all.len() as int) =~= all);
        }
        Ok(out)
    }
}

/// Packages abstraction for pip/pip3.
#[derive(Debug)]
pub struct PackageManager {
    /// The wrapped pip command.
    pub pip: Pip,
    /// The name this manager was constructed under.
    pub name: String,
}

impl PackageManager {
    /// Construct a new pip package manager under the given program name.
    pub fn new(name: &str) -> (r: Self)
        ensures
            r.pip.wf(),
            r.pip.command.name@ == name@,
            r.name@ == name@,
    {
        PackageManager { pip: Pip::new(name), name: name.to_owned() }
    }
}

impl super::PackageManager for PackageManager {
    open spec fn name_spec(&self) -> Seq<char> {
        self.name@
    }

    fn primary(&self) -> bool {
        true
    }

    fn needs_interaction(&self) -> bool {
        false
    }

    fn key(&self) -> Option<&str> {
        None
    }

    fn name(&self) -> (r: &str) {
        self.name.as_str()
    }

    fn test_command(&self) -> Command {
        self.pip.test_command()
    }

    fn test(&self, probe: Result<Output, RunError>) -> (r: Result<bool, PackagesError>) {
        self.pip.test(probe)
    }

    fn list_command(&self) -> Command {
        self.pip.list_command()
    }

    fn list_packages(&self, lines: &Vec<String>) -> Result<Vec<Package>, PackagesError> {
        self.pip.list_installed(lines)
    }

    fn install_packages(&self, packages: &Vec<String>) -> Vec<Command> {
        let mut out: Vec<Command> = Vec::new();
        out.push(self.pip.install_packages(packages));
        out
    }
}

} // verus!
