//! Packages abstraction for rustup, shared by the toolchain and component
//! package managers.

use vstd::prelude::*;
use vstd::string::StrSliceExecFns;

use crate::command::{Command, Output, RunError};
use crate::os;
use crate::packages::{package_names, probe_outcome, views_of, Package, PackagesError};
use crate::strutil::{
    dash_trim_str, dash_trimmed, find_sub, first_token_str, scan_sub, second_token,
    second_token_str, space_of, str_eq, token_to, trim_str, trimmed,
};

verus! {

/// The package name a line of `rustup <sub> list` output names for the given
/// architecture, if any: indented and blank lines name none, only lines
/// marked default or installed name anything, and the name is the first
/// token up to the architecture suffix, with dashes trimmed.
pub open spec fn rustup_line(l: Seq<char>, arch: Seq<char>) -> Option<Seq<char>> {
    if l.len() > 0 && space_of(l[0]) {
        None
    } else if trimmed(l).len() == 0 {
        None
    } else if !(second_token(trimmed(l)) == Some("(default)"@) || second_token(trimmed(l))
        == Some("(installed)"@)) {
        None
    } else {
        match find_sub(token_to(trimmed(l)), arch, 0) {
            Some(i) => Some(dash_trimmed(token_to(trimmed(l)).subrange(0, i))),
            None => None,
        }
    }
}

/// The package names a whole listing names, in order.
pub open spec fn rustup_names(lines: Seq<Seq<char>>, arch: Seq<char>) -> Seq<Seq<char>>
    decreases lines.len(),
{
    if lines.len() == 0 {
        Seq::empty()
    } else {
        rustup_names(lines.drop_last(), arch) + match rustup_line(lines.last(), arch) {
            Some(n) => seq![n],
            None => Seq::empty(),
        }
    }
}

/// A rustup command wrapper for one subcommand, e.g. components or
/// toolchains.
#[derive(Debug)]
pub struct Rustup {
    /// The base rustup command.
    pub rustup: Command,
    /// The subcommand, e.g. `component`.
    pub sub_command: String,
    /// The verb that installs, e.g. `add`.
    pub install: String,
}

impl Rustup {
    /// The base command is plain `rustup`.
    pub open spec fn wf(&self) -> bool {
        self.rustup.name@ == "rustup"@ && self.rustup.args@.len() == 0
            && self.rustup.working_directory is None
    }

    /// Create a new rustup command wrapper.
    pub fn new(sub_command: &str, install: &str) -> (r: Self)
        ensures
            r.wf(),
            r.sub_command@ == sub_command@,
            r.install@ == install@,
    {
        Rustup {
            rustup: Command::new(os::command("rustup")),
            sub_command: sub_command.to_owned(),
            install: install.to_owned(),
        }
    }

    /// The command that probes whether rustup is available.
    pub fn test_command(&self) -> (r: Command)
        ensures
            r.name@ == self.rustup.name@,
            views_of(r.args@) =~= seq!["--version"@],
            r.working_directory is None,
    {
        let mut rustup = Command::new(self.rustup.name.clone());
        let version: &str = "--version";
        rustup.arg(version.to_owned());
        rustup
    }

    /// Whether rustup is available, decided from the probe's outcome.
    pub fn test(&self, probe: Result<Output, RunError>) -> (r: Result<bool, PackagesError>)
        ensures
            match probe {
                Ok(output) => r == Ok::<bool, PackagesError>(output.success),
                Err(RunError::NotFound) => r == Ok::<bool, PackagesError>(false),
                Err(RunError::Failed(message)) => r == Err::<bool, PackagesError>(
                    PackagesError::CommandFailed(message),
                ),
            },
    {
        probe_outcome(probe)
    }

    /// The command that installs the given packages under this subcommand.
    pub fn install_packages(&self, packages: &Vec<String>) -> (r: Command)
        ensures
            r.name@ == self.rustup.name@,
            views_of(r.args@) =~= seq![self.sub_command@, self.install@] + views_of(packages@),
            r.working_directory is None,
    {
        let mut rustup = Command::new(self.rustup.name.clone());
        rustup.arg(self.sub_command.clone());
        rustup.arg(self.install.clone());
        rustup.args(packages);
        proof {
            assert(views_of(rustup.args@) =~= seq![self.sub_command@, self.install@] + views_of(
                packages@,
            ));
        }
        rustup
    }

    /// The command whose output lists what is installed under this
    /// subcommand.
    pub fn list_command(&self) -> (r: Command)
        ensures
            r.name@ == self.rustup.name@,
            views_of(r.args@) =~= seq![self.sub_command@, "list"@],
            r.working_directory is None,
    {
        let mut rustup = Command::new(self.rustup.name.clone());
        let list: &str = "list";
        rustup.arg(self.sub_command.clone());
        rustup.arg(list.to_owned());
        rustup
    }

    /// The packages that the given `rustup <sub> list` output lists as
    /// installed for the given architecture.
    pub fn list_installed(&self, lines: &Vec<String>, arch: &str) -> (r: Result<
        Vec<Package>,
        PackagesError,
    >)
        ensures
            r matches Ok(v) && package_names(v@) == rustup_names(lines.deep_view(), arch@),
    {
        let mut out: Vec<Package> = Vec::new();
        let mut i: usize = 0;
        let ghost all = lines.deep_view();
        while i < lines.len()
            invariant
                0 <= i <= lines@.len(),
                all == lines.deep_view(),
                all.len() == lines@.len(),
                package_names(out@) == rustup_names(all.subrange(0, i as int), arch@),
            decreases lines@.len() - i,
        {
            proof {
                assert(all.subrange(0, i + 1).drop_last() =~= all.subrange(0, i as int));
                assert(all.subrange(0, i + 1).last() == all[i as int]);
                assert(all[i as int] == lines@[i as int]@);
            }
            let line = lines[i].as_str();
            let n = line.unicode_len();
            let skip = n > 0 && crate::strutil::char_is_space(line.get_char(0));
            if !skip {
                let t = trim_str(line);
                if t.as_str().unicode_len() > 0 {
                    let marker_ok = match second_token_str(t.as_str()) {
                        Some(marker) => str_eq(marker.as_str(), "(default)") || str_eq(
                            marker.as_str(),
                            "(installed)",
                        ),
                        None => false,
                    };
                    if marker_ok {
                        let tok = first_token_str(t.as_str());
                        match scan_sub(tok.as_str(), arch, 0) {
                            Some(at) => {
                                let prefix = tok.as_str().substring_char(0, at);
                                let name = dash_trim_str(prefix);
                                let ghost before = out@;
                                out.push(Package { name });
                                proof {
                                    assert(package_names(out@) =~= package_names(before) + seq![
                                        rustup_line(all[i as int], arch@).unwrap(),
                                    ]);
                                }
                            },
                            None => {},
                        }
                    }
                }
            }
            proof {
                assert(package_names(out@) =~= rustup_names(all.subrange(0, i + 1), arch@));
            }
            i = i + 1;
        }
        proof {
            assert(all.subrange(0, all.len() as int) =~= all);
        }
        Ok(out)
    }
}

} // verus!
