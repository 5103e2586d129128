//! Packages abstraction for WinGet.

use vstd::prelude::*;
use vstd::string::StrSliceExecFns;

use crate::command::{Command, Output, RunError};
use crate::os;
use crate::packages::{package_names, probe_outcome, views_of, Package, PackagesError};
use crate::strutil::{alpha_of, char_is_alphabetic, char_is_numeric, numeric_of, split_char, split_str, str_eq};
use crate::template::upper_of;

verus! {

/// Whether a token is upper camel case: a leading uppercase letter followed
/// by letters.
pub open spec fn upper_camel(t: Seq<char>) -> bool {
    t.len() > 0 && alpha_of(t[0]) && upper_of(t[0]) && (forall|i: int|
        1 <= i < t.len() ==> alpha_of(#[trigger] t[i]))
}

/// Whether a token is all numeric; an empty token counts.
pub open spec fn all_num(t: Seq<char>) -> bool {
    forall|i: int| 0 <= i < t.len() ==> numeric_of(#[trigger] t[i])
}

/// The product-registry name an installer product name stands for, if any:
/// exactly six dot-separated tokens, two upper-camel name tokens, a
/// three-part numeric version, and the `msi` suffix; the name is the two
/// name tokens joined by a dot.
pub open spec fn winget_name(toks: Seq<Seq<char>>) -> Option<Seq<char>> {
    if toks.len() == 6 && upper_camel(toks[0]) && upper_camel(toks[1]) && all_num(toks[2])
        && all_num(toks[3]) && all_num(toks[4]) {
        Some(toks[0] + "."@ + toks[1])
    } else {
        None
    }
}

/// The names a whole product listing stands for, in order; the walk stops at
/// the first product without the `msi` suffix.
pub open spec fn winget_names(products: Seq<Seq<char>>) -> Seq<Seq<char>>
    decreases products.len(),
{
    if products.len() == 0 {
        Seq::empty()
    } else {
        let toks = split_char(products[0], '.');
        if toks.last() != "msi"@ {
            Seq::empty()
        } else {
            (match winget_name(toks) {
                Some(n) => seq![n],
                None => Seq::empty(),
            }) + winget_names(products.drop_first())
        }
    }
}

/// Whether every character of the string from index `from` on is
/// alphabetic.
fn check_alpha(t: &str, from: usize) -> (r: bool)
    requires
        from <= t@.len(),
    ensures
        r == (forall|i: int| from <= i < t@.len() ==> alpha_of(#[trigger] t@[i])),
{
    let n = t.unicode_len();
    let mut i: usize = from;
    while i < n
        invariant
            from <= i <= n,
            n == t@.len(),
            forall|k: int| from <= k < i ==> alpha_of(#[trigger] t@[k]),
        decreases n - i,
    {
        if !char_is_alphabetic(t.get_char(i)) {
            return false;
        }
        i = i + 1;
    }
    true
}

/// Whether the token is upper camel case.
fn check_upper_camel(t: &str) -> (r: bool)
    ensures
        r == upper_camel(t@),
{
    let n = t.unicode_len();
    if n == 0 {
        return false;
    }
    let first = t.get_char(0);
    if !(char_is_alphabetic(first) && crate::template::char_is_uppercase(first)) {
        return false;
    }
    check_alpha(t, 1)
}

/// Whether the token is all numeric.
fn check_all_num(t: &str) -> (r: bool)
    ensures
        r == all_num(t@),
{
    let n = t.unicode_len();
    let mut i: usize = 0;
    while i < n
        invariant
            0 <= i <= n,
            n == t@.len(),
            forall|k: int| 0 <= k < i ==> numeric_of(#[trigger] t@[k]),
        decreases n - i,
    {
        if !char_is_numeric(t.get_char(i)) {
            return false;
        }
        i = i + 1;
    }
    true
}

/// A winget command wrapper.
#[derive(Debug)]
pub struct WinGet {
    /// The base winget command.
    pub winget: Command,
}

impl WinGet {
    /// The base command is plain `winget`.
    pub open spec fn wf(&self) -> bool {
        self.winget.name@ == "winget"@ && self.winget.args@.len() == 0
            && self.winget.working_directory is None
    }

    /// Create a new winget command wrapper.
    pub fn new() -> (r: Self)
        ensures
            r.wf(),
    {
        WinGet { winget: Command::new(os::command("winget")) }
    }

    /// The command that probes whether winget is available.
    pub fn test_command(&self) -> (r: Command)
        ensures
            r.name@ == self.winget.name@,
            views_of(r.args@) =~= seq!["--version"@],
            r.working_directory is None,
    {
        let mut winget = Command::new(self.winget.name.clone());
        let version: &str = "--version";
        winget.arg(version.to_owned());
        winget
    }

    /// Whether winget is available, decided from the probe's outcome.
    pub fn test(&self, probe: Result<Output, RunError>) -> (r: Result<bool, PackagesError>)
        ensures
            match probe {
                Ok(output) => r == Ok::<bool, PackagesError>(output.success),
                Err(RunError::NotFound) => r == Ok::<bool, PackagesError>(false),
                Err(RunError::Failed(message)) => r == Err::<bool, PackagesError>(
                    PackagesError::CommandFailed(message),
                ),
            },
    {
        probe_outcome(probe)
    }

    /// The commands that install the given packages: one exact-match install
    /// per package.
    pub fn install_packages(&self, packages: &Vec<String>) -> (r: Vec<Command>)
        ensures
            r@.len() == packages@.len(),
            forall|i: int|
                0 <= i < r@.len() ==> (#[trigger] r@[i]).name@ == self.winget.name@ && views_of(
                    r@[i].args@,
                ) =~= seq!["install"@, "-e"@, packages@[i]@] && r@[i].working_directory is None,
    {
        let mut out: Vec<Command> = Vec::new();
        let mut i: usize = 0;
        while i < packages.len()
            invariant
                0 <= i <= packages@.len(),
                out@.len() == i,
                forall|k: int|
                    0 <= k < i ==> (#[trigger] out@[k]).name@ == self.winget.name@ && views_of(
                        out@[k].args@,
                    ) =~= seq!["install"@, "-e"@, packages@[k]@]
                        && out@[k].working_directory is None,
            decreases packages@.len() - i,
        {
            let mut winget = Command::new(self.winget.name.clone());
            let install: &str = "install";
            let exact: &str = "-e";
            winget.arg(install.to_owned());
            winget.arg(exact.to_owned());
            winget.arg(packages[i].clone());
            proof {
                assert(views_of(winget.args@) =~= seq!["install"@, "-e"@, packages@[i as int]@]);
            }
            out.push(winget);
            i = i + 1;
        }
        out
    }

    /// The packages that the given installer product names stand for; the
    /// walk stops at the first product without the `msi` suffix.
    #[verifier::rlimit(50)]
    #[verifier::spinoff_prover]
    pub fn list_installed(&self, products: &Vec<String>) -> (r: Result<
        Vec<Package>,
        PackagesError,
    >)
        ensures
            r matches Ok(v) && package_names(v@) == winget_names(products.deep_view()),
    {
        let mut out: Vec<Package> = Vec::new();
        let mut i: usize = 0;
        let ghost all = products.deep_view();
        proof {
            assert(all.subrange(0, all.len() as int) =~= all);
            assert(package_names(out@) =~= Seq::<Seq<char>>::empty());
            assert(package_names(out@) + winget_names(all) =~= winget_names(all));
        }
        while i < products.len()
            invariant
                0 <= i <= products@.len(),
                all == products.deep_view(),
                all.len() == products@.len(),
                winget_names(all) == package_names(out@) + winget_names(
                    all.subrange(i as int, all.len() as int),
                ),
            decreases products@.len() - i,
        {
            let ghost suffix = all.subrange(i as int, all.len() as int);
            proof {
                assert(suffix[0] == all[i as int]);
                assert(all[i as int] == products@[i as int]@);
                assert(suffix.drop_first() =~= all.subrange(i + 1, all.len() as int));
            }
            let toks = split_str(products[i].as_str(), '.');
            proof {
                assert(toks.deep_view().len() > 0);
                assert(toks@.len() == toks.deep_view().len());
            }
            let last = toks.len() - 1;
            proof {
                assert(toks.deep_view()[last as int] == toks@[last as int]@);
            }
            if !str_eq(toks[last].as_str(), "msi") {
                proof {
                    assert(winget_names(suffix) =~= Seq::<Seq<char>>::empty());
                    assert(package_names(out@) + Seq::<Seq<char>>::empty() =~= package_names(
                        out@,
                    ));
                }
                return Ok(out);
            }
            let keep = toks.len() == 6 && check_upper_camel(toks[0].as_str())
                && check_upper_camel(toks[1].as_str()) && check_all_num(toks[2].as_str())
                && check_all_num(toks[3].as_str()) && check_all_num(toks[4].as_str());
            proof {
                assert(toks.deep_view().len() == toks@.len());
                assert forall|k: int| 0 <= k < toks@.len() implies #[trigger] toks.deep_view()[k]
                    == toks@[k]@ by {}
            }
            if keep {
                let mut name = toks[0].clone();
                let dot: &str = ".";
                name.append(dot);
                name.append(toks[1].as_str());
                let ghost before = out@;
                out.push(Package { name });
                proof {
                    assert(winget_name(split_char(all[i as int], '.')) == Some(
                        toks@[0]@ + "."@ + toks@[1]@,
                    ));
                    assert(package_names(out@) =~= package_names(before) + seq![
                        toks@[0]@ + "."@ + toks@[1]@,
                    ]);
                }
            } else {
                proof {
                    assert(winget_name(split_char(all[i as int], '.')) is None);
                }
            }
            proof {
                assert(winget_names(all) =~= package_names(out@) + winget_names(
                    all.subrange(i + 1, all.len() as int),
                ));
            }
            i = i + 1;
        }
        proof {
            assert(all.subrange(all.len() as int, all.len() as int) =~= Seq::<Seq<char>>::empty());
            assert(package_names(out@) + Seq::<Seq<char>>::empty() =~= package_names(out@));
        }
        Ok(out)
    }
}

/// Packages abstraction for WinGet.
#[derive(Debug)]
pub struct PackageManager {
    /// The wrapped winget command.
    pub winget: WinGet,
}

impl PackageManager {
    /// Construct a new winget package manager.
    pub fn new() -> (r: Self)
        ensures
            r.winget.wf(),
    {
        PackageManager { winget: WinGet::new() }
    }
}

impl super::PackageManager for PackageManager {
    open spec fn name_spec(&self) -> Seq<char> {
        "winget"@
    }

    fn primary(&self) -> bool {
        true
    }

    fn needs_interaction(&self) -> bool {
        false
    }

    fn key(&self) -> Option<&str> {
        None
    }

    fn name(&self) -> (r: &str) {
        "winget"
    }

    fn test_command(&self) -> Command {
        self.winget.test_command()
    }

    fn test(&self, probe: Result<Output, RunError>) -> (r: Result<bool, PackagesError>) {
        self.winget.test(probe)
    }

    /// Installed products are enumerated from the installer registry, not a
    /// command's output; the bare base command stands in here.
    fn list_command(&self) -> Command {
        Command::new(self.winget.winget.name.clone())
    }

    fn list_packages(&self, products: &Vec<String>) -> Result<Vec<Package>, PackagesError> {
        self.winget.list_installed(products)
    }

    fn install_packages(&self, packages: &Vec<String>) -> Vec<Command> {
        self.winget.install_packages(packages)
    }
}

} // verus!
