//! Packages abstraction for Debian.

use vstd::prelude::*;
use vstd::string::StrSliceExecFns;

use crate::command::{Command, Output, RunError};
use crate::os;
use crate::packages::{package_names, probe_outcome, views_of, Package, PackagesError};
use crate::strutil::{first_token_str, second_token, second_token_str, str_eq, token_to, trim_str, trimmed};

verus! {

/// An apt command wrapper, installing through sudo.
#[derive(Debug)]
pub struct Apt {
    /// The base sudo command.
    pub sudo: Command,
    /// The base apt command.
    pub apt: Command,
}

impl Apt {
    /// The base commands are plain `sudo` and `apt`.
    pub open spec fn wf(&self) -> bool {
        self.sudo.name@ == "sudo"@ && self.sudo.args@.len() == 0
            && self.sudo.working_directory is None && self.apt.name@ == "apt"@
            && self.apt.args@.len() == 0 && self.apt.working_directory is None
    }

    /// Create a new apt command wrapper.
    pub fn new() -> (r: Self)
        ensures
            r.wf(),
    {
        Apt { sudo: Command::new(os::command("sudo")), apt: Command::new(os::command("apt")) }
    }

    /// The command that probes whether apt is available.
    pub fn test_command(&self) -> (r: Command)
        ensures
            r.name@ == self.apt.name@,
            views_of(r.args@) =~= seq!["--version"@],
            r.working_directory is None,
    {
        let mut apt = Command::new(self.apt.name.clone());
        let version: &str = "--version";
        apt.arg(version.to_owned());
        apt
    }

    /// Whether apt is available, decided from the probe's outcome.
    pub fn test(&self, probe: Result<Output, RunError>) -> (r: Result<bool, PackagesError>)
        ensures
            match probe {
                Ok(output) => r == Ok::<bool, PackagesError>(output.success),
                Err(RunError::NotFound) => r == Ok::<bool, PackagesError>(false),
                Err(RunError::Failed(message)) => r == Err::<bool, PackagesError>(
                    PackagesError::CommandFailed(message),
                ),
            },
    {
        probe_outcome(probe)
    }

    /// The command that installs the given packages, through sudo, without
    /// prompting per package.
    pub fn install_packages(&self, packages: &Vec<String>) -> (r: Command)
        ensures
            r.name@ == self.sudo.name@,
            views_of(r.args@) =~= seq![
                "-p"@,
                "[sudo] password for %u to install packages: "@,
                "--"@,
                "apt"@,
                "install"@,
                "-y"@,
            ] + views_of(packages@),
            r.working_directory is None,
    {
        let mut sudo = Command::new(self.sudo.name.clone());
        let p: &str = "-p";
        let prompt: &str = "[sudo] password for %u to install packages: ";
        let dashes: &str = "--";
        let apt: &str = "apt";
        let install: &str = "install";
        let yes: &str = "-y";
        sudo.arg(p.to_owned());
        sudo.arg(prompt.to_owned());
        sudo.arg(dashes.to_owned());
        sudo.arg(apt.to_owned());
        sudo.arg(install.to_owned());
        sudo.arg(yes.to_owned());
        sudo.args(packages);
        proof {
            assert(views_of(sudo.args@) =~= seq![
                "-p"@,
                "[sudo] password for %u to install packages: "@,
                "--"@,
                "apt"@,
                "install"@,
                "-y"@,
            ] + views_of(packages@));
        }
        sudo
    }
}

/// Whether a listing line is malformed: non-blank but without the second,
/// package-name token.
pub open spec fn dpkg_bad(l: Seq<char>) -> bool {
    trimmed(l).len() > 0 && second_token(trimmed(l)) is None
}

/// The package name a well-formed line of `dpkg-query -W` output names, if
/// any: a blank line names none, and only lines whose status token is `ii`
/// name their second token.
pub open spec fn dpkg_line(l: Seq<char>) -> Option<Seq<char>> {
    if trimmed(l).len() == 0 {
        None
    } else if token_to(trimmed(l)) != "ii"@ {
        None
    } else {
        second_token(trimmed(l))
    }
}

/// The package names a whole listing names, in order.
pub open spec fn dpkg_names(lines: Seq<Seq<char>>) -> Seq<Seq<char>>
    decreases lines.len(),
{
    if lines.len() == 0 {
        Seq::empty()
    } else {
        dpkg_names(lines.drop_last()) + match dpkg_line(lines.last()) {
            Some(n) => seq![n],
            None => Seq::empty(),
        }
    }
}

/// A dpkg-query command wrapper.
#[derive(Debug)]
pub struct DpkgQuery {
    /// The base dpkg-query command.
    pub dpkg_query: Command,
}

impl DpkgQuery {
    /// The base command is plain `dpkg-query`.
    pub open spec fn wf(&self) -> bool {
        self.dpkg_query.name@ == "dpkg-query"@ && self.dpkg_query.args@.len() == 0
            && self.dpkg_query.working_directory is None
    }

    /// Create a new dpkg-query command wrapper.
    pub fn new() -> (r: Self)
        ensures
            r.wf(),
    {
        DpkgQuery { dpkg_query: Command::new(os::command("dpkg-query")) }
    }

    /// The command whose output lists the installed packages with their
    /// status.
    pub fn list_command(&self) -> (r: Command)
        ensures
            r.name@ == self.dpkg_query.name@,
            views_of(r.args@) =~= seq![
                "-W"@,
                "--showformat=${db:Status-Abbrev}${binary:Package}\\n"@,
            ],
            r.working_directory is None,
    {
        let mut q = Command::new(self.dpkg_query.name.clone());
        let w: &str = "-W";
        let fmt: &str = "--showformat=${db:Status-Abbrev}${binary:Package}\\n";
        q.arg(w.to_owned());
        q.arg(fmt.to_owned());
        q
    }

    /// The packages that the given `dpkg-query -W` output lists as
    /// installed; fails exactly when some non-blank line lacks its package
    /// name, and succeeds with the listed names on every other input.
    pub fn list_installed(&self, lines: &Vec<String>) -> (r: Result<Vec<Package>, PackagesError>)
        ensures
            (exists|i: int| 0 <= i < lines.deep_view().len() && dpkg_bad(
                #[trigger] lines.deep_view()[i],
            )) ==> r == Err::<Vec<Package>, PackagesError>(PackagesError::MissingName),
            !(exists|i: int| 0 <= i < lines.deep_view().len() && dpkg_bad(
                #[trigger] lines.deep_view()[i],
            )) ==> (r matches Ok(v) && package_names(v@) == dpkg_names(lines.deep_view())),
    {
        let mut out: Vec<Package> = Vec::new();
        let mut i: usize = 0;
        let ghost all = lines.deep_view();
        while i < lines.len()
            invariant
                0 <= i <= lines@.len(),
                all == lines.deep_view(),
                all.len() == lines@.len(),
                forall|k: int| 0 <= k < i ==> !dpkg_bad(#[trigger] all[k]),
                package_names(out@) == dpkg_names(all.subrange(0, i as int)),
            decreases lines@.len() - i,
        {
            proof {
                assert(all.subrange(0, i + 1).drop_last() =~= all.subrange(0, i as int));
                assert(all.subrange(0, i + 1).last() == all[i as int]);
                assert(all[i as int] == lines@[i as int]@);
            }
            let line = lines[i].as_str();
            let t = trim_str(line);
            if t.as_str().unicode_len() > 0 {
                let status = first_token_str(t.as_str());
                match second_token_str(t.as_str()) {
                    None => {
                        assert(dpkg_bad(all[i as int]));
                        return Err(PackagesError::MissingName);
                    },
                    Some(name) => {
                        if str_eq(status.as_str(), "ii") {
                            let ghost before = out@;
                            out.push(Package { name });
                            proof {
                                assert(package_names(out@) =~= package_names(before) + seq![
                                    second_token(trimmed(all[i as int])).unwrap(),
                                ]);
                            }
                        }
                    },
                }
            }
            proof {
                assert(package_names(out@) =~= dpkg_names(all.subrange(0, i + 1)));
            }
            i = i + 1;
        }
        proof {
            assert(all.subrange(0, all.len() as int) =~= all);
        }
        Ok(out)
    }
}

/// Packages abstraction for Debian.
#[derive(Debug)]
pub struct PackageManager {
    /// The wrapped dpkg-query command.
    pub dpkg_query: DpkgQuery,
    /// The wrapped apt command.
    pub apt: Apt,
}

impl PackageManager {
    /// Construct a new debian package manager.
    pub fn new() -> (r: Self)
        ensures
            r.dpkg_query.wf(),
            r.apt.wf(),
    {
        PackageManager { dpkg_query: DpkgQuery::new(), apt: Apt::new() }
    }
}

impl super::PackageManager for PackageManager {
    open spec fn name_spec(&self) -> Seq<char> {
        "debian"@
    }

    fn primary(&self) -> bool {
        true
    }

    fn needs_interaction(&self) -> bool {
        true
    }

    fn key(&self) -> Option<&str> {
        None
    }

    fn name(&self) -> (r: &str) {
        "debian"
    }

    fn test_command(&self) -> Command {
        self.apt.test_command()
    }

    fn test(&self, probe: Result<Output, RunError>) -> (r: Result<bool, PackagesError>) {
        self.apt.test(probe)
    }

    fn list_command(&self) -> Command {
        self.dpkg_query.list_command()
    }

    fn list_packages(&self, lines: &Vec<String>) -> Result<Vec<Package>, PackagesError> {
        self.dpkg_query.list_installed(lines)
    }

    fn install_packages(&self, packages: &Vec<String>) -> Vec<Command> {
        let mut out: Vec<Command> = Vec::new();
        out.push(self.apt.install_packages(packages));
        out
    }
}

} // verus!
