//! Packages abstraction for Fedora.

use vstd::prelude::*;
use vstd::string::StrSliceExecFns;

use crate::command::{Command, Output, RunError};
use crate::os;
use crate::packages::{package_names, probe_outcome, views_of, Package, PackagesError};
use crate::strutil::{find_char, first_token_str, scan_char, token_to, trim_str, trimmed};

verus! {

/// Whether a listing line is malformed: non-blank but with a first token
/// that carries no architecture suffix after a dot.
pub open spec fn dnf_bad(l: Seq<char>) -> bool {
    trimmed(l).len() > 0 && find_char(token_to(trimmed(l)), '.', 0) is None
}

/// The package name a well-formed line of `dnf list --installed` output
/// names, if any: a blank line names none, any other names its first token
/// up to the first dot.
pub open spec fn dnf_line(l: Seq<char>) -> Option<Seq<char>> {
    if trimmed(l).len() == 0 {
        None
    } else {
        match find_char(token_to(trimmed(l)), '.', 0) {
            Some(i) => Some(token_to(trimmed(l)).subrange(0, i)),
            None => None,
        }
    }
}

/// A listing without its header line.
pub open spec fn dnf_tail(lines: Seq<Seq<char>>) -> Seq<Seq<char>> {
    if lines.len() >= 1 {
        lines.skip(1)
    } else {
        lines
    }
}

/// The package names a whole listing names, in order; the leading header
/// line is skipped.
pub open spec fn dnf_tail_names(lines: Seq<Seq<char>>) -> Seq<Seq<char>>
    decreases lines.len(),
{
    if lines.len() == 0 {
        Seq::empty()
    } else {
        dnf_tail_names(lines.drop_last()) + match dnf_line(lines.last()) {
            Some(n) => seq![n],
            None => Seq::empty(),
        }
    }
}

/// A dnf command wrapper, installing through sudo.
#[derive(Debug)]
pub struct Dnf {
    /// The base sudo command.
    pub sudo: Command,
    /// The base dnf command.
    pub dnf: Command,
}

impl Dnf {
    /// The base commands are plain `sudo` and `dnf`.
    pub open spec fn wf(&self) -> bool {
        self.sudo.name@ == "sudo"@ && self.sudo.args@.len() == 0
            && self.sudo.working_directory is None && self.dnf.name@ == "dnf"@
            && self.dnf.args@.len() == 0 && self.dnf.working_directory is None
    }

    /// Create a new dnf command wrapper.
    pub fn new() -> (r: Self)
        ensures
            r.wf(),
    {
        Dnf { sudo: Command::new(os::command("sudo")), dnf: Command::new(os::command("dnf")) }
    }

    /// The command that probes whether dnf is available.
    pub fn test_command(&self) -> (r: Command)
        ensures
            r.name@ == self.dnf.name@,
            views_of(r.args@) =~= seq!["--version"@],
            r.working_directory is None,
    {
        let mut dnf = Command::new(self.dnf.name.clone());
        let version: &str = "--version";
        dnf.arg(version.to_owned());
        dnf
    }

    /// Whether dnf is available, decided from the probe's outcome.
    pub fn test(&self, probe: Result<Output, RunError>) -> (r: Result<bool, PackagesError>)
        ensures
            match probe {
                Ok(output) => r == Ok::<bool, PackagesError>(output.success),
                Err(RunError::NotFound) => r == Ok::<bool, PackagesError>(false),
                Err(RunError::Failed(message)) => r == Err::<bool, PackagesError>(
                    PackagesError::CommandFailed(message),
                ),
            },
    {
        probe_outcome(probe)
    }

    /// The command that installs the given packages, through sudo, without
    /// prompting per package.
    pub fn install_packages(&self, packages: &Vec<String>) -> (r: Command)
        ensures
            r.name@ == self.sudo.name@,
            views_of(r.args@) =~= seq![
                "-p"@,
                "[sudo] password for %u to install packages: "@,
                "--"@,
                "dnf"@,
                "install"@,
                "-y"@,
            ] + views_of(packages@),
            r.working_directory is None,
    {
        let mut sudo = Command::new(self.sudo.name.clone());
        let p: &str = "-p";
        let prompt: &str = "[sudo] password for %u to install packages: ";
        let dashes: &str = "--";
        let dnf: &str = "dnf";
        let install: &str = "install";
        let yes: &str = "-y";
        sudo.arg(p.to_owned());
        sudo.arg(prompt.to_owned());
        sudo.arg(dashes.to_owned());
        sudo.arg(dnf.to_owned());
        sudo.arg(install.to_owned());
        sudo.arg(yes.to_owned());
        sudo.args(packages);
        proof {
            assert(views_of(sudo.args@) =~= seq![
                "-p"@,
                "[sudo] password for %u to install packages: "@,
                "--"@,
                "dnf"@,
                "install"@,
                "-y"@,
            ] + views_of(packages@));
        }
        sudo
    }

    /// The command whose output lists the installed packages.
    pub fn list_command(&self) -> (r: Command)
        ensures
            r.name@ == self.dnf.name@,
            views_of(r.args@) =~= seq!["list"@, "--installed"@],
            r.working_directory is None,
    {
        let mut dnf = Command::new(self.dnf.name.clone());
        let list: &str = "list";
        let installed: &str = "--installed";
        dnf.arg(list.to_owned());
        dnf.arg(installed.to_owned());
        dnf
    }

    /// The packages that the given `dnf list --installed` output lists; the
    /// first, header line is skipped. Fails exactly when a non-blank listed
    /// line carries no dot in its first token, and succeeds with the listed
    /// names on every other input.
    pub fn list_installed(&self, lines: &Vec<String>) -> (r: Result<Vec<Package>, PackagesError>)
        ensures
            ({
                let tail = dnf_tail(lines.deep_view());
                &&& (exists|i: int| 0 <= i < tail.len() && dnf_bad(#[trigger] tail[i])) ==> r
                    == Err::<Vec<Package>, PackagesError>(PackagesError::IllegalName)
                &&& !(exists|i: int| 0 <= i < tail.len() && dnf_bad(#[trigger] tail[i])) ==> (
                r matches Ok(v) && package_names(v@) == dnf_tail_names(tail))
            }),
    {
        let mut out: Vec<Package> = Vec::new();
        let mut i: usize = 1;
        let ghost all = lines.deep_view();
        let ghost tail = dnf_tail(all);
        if lines.len() == 0 {
            proof {
                assert(tail.len() == 0);
                assert(package_names(out@) =~= dnf_tail_names(tail));
            }
            return Ok(out);
        }
        while i < lines.len()
            invariant
                1 <= i <= lines@.len(),
                lines@.len() >= 1,
                all == lines.deep_view(),
                tail == dnf_tail(all),
                all.len() == lines@.len(),
                forall|k: int| 0 <= k < i - 1 ==> !dnf_bad(#[trigger] tail[k]),
                package_names(out@) == dnf_tail_names(tail.subrange(0, i - 1)),
            decreases lines@.len() - i,
        {
            proof {
                assert(tail.subrange(0, i as int).drop_last() =~= tail.subrange(0, i - 1));
                assert(tail.subrange(0, i as int).last() == tail[i - 1]);
                assert(tail[i - 1] == all[i as int]);
                assert(all[i as int] == lines@[i as int]@);
            }
            let line = lines[i].as_str();
            let t = trim_str(line);
            if t.as_str().unicode_len() > 0 {
                let name = first_token_str(t.as_str());
                match scan_char(name.as_str(), '.', 0) {
                    None => {
                        assert(dnf_bad(tail[i - 1]));
                        return Err(PackagesError::IllegalName);
                    },
                    Some(d) => {
                        let short = name.as_str().substring_char(0, d).to_owned();
                        let ghost before = out@;
                        out.push(Package { name: short });
                        proof {
                            assert(package_names(out@) =~= package_names(before) + seq![
                                dnf_line(tail[i - 1]).unwrap(),
                            ]);
                        }
                    },
                }
            }
            proof {
                assert(package_names(out@) =~= dnf_tail_names(tail.subrange(0, i as int)));
            }
            i = i + 1;
        }
        proof {
            assert(tail.subrange(0, tail.len() as int) =~= tail);
            assert(i - 1 == tail.len());
        }
        Ok(out)
    }
}

/// Packages abstraction for Fedora.
#[derive(Debug)]
pub struct PackageManager {
    /// The wrapped dnf command.
    pub dnf: Dnf,
}

impl PackageManager {
    /// Construct a new fedora package manager.
    pub fn new() -> (r: Self)
        ensures
            r.dnf.wf(),
    {
        PackageManager { dnf: Dnf::new() }
    }
}

impl super::PackageManager for PackageManager {
    open spec fn name_spec(&self) -> Seq<char> {
        "fedora"@
    }

    fn primary(&self) -> bool {
        true
    }

    fn needs_interaction(&self) -> bool {
        true
    }

    fn key(&self) -> Option<&str> {
        None
    }

    fn name(&self) -> (r: &str) {
        "fedora"
    }

    fn test_command(&self) -> Command {
        self.dnf.test_command()
    }

    fn test(&self, probe: Result<Output, RunError>) -> (r: Result<bool, PackagesError>) {
        self.dnf.test(probe)
    }

    fn list_command(&self) -> Command {
        self.dnf.list_command()
    }

    fn list_packages(&self, lines: &Vec<String>) -> Result<Vec<Package>, PackagesError> {
        self.dnf.list_installed(lines)
    }

    fn install_packages(&self, packages: &Vec<String>) -> Vec<Command> {
        let mut out: Vec<Command> = Vec::new();
        out.push(self.dnf.install_packages(packages));
        out
    }
}

} // verus!
