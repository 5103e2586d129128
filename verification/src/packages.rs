//! Package manager abstraction: which managers exist, which one a machine
//! uses by default, what to run to probe, list and install, and how to read
//! what a manager printed.
//!
//! Running the commands is the caller's business; every decision — the
//! command lines, the probe outcome, the parsing of listings — is made here.

use vstd::prelude::*;

use crate::command::{Command, Output, RunError};
use crate::facts;
use crate::facts::Facts;

pub mod cargo;
pub mod debian;
pub mod fedora;
pub mod python;
pub mod ruby;
pub mod rustup_components;
pub mod rustup_toolchains;
pub mod winget;

verus! {

/// Information about an installed package.
#[derive(Debug, Clone, PartialEq, Eq)]
pub struct Package {
    /// The package's name.
    pub name: String,
}

/// Errors raised while deciding about packages.
#[derive(Debug, Clone, PartialEq, Eq)]
pub enum PackagesError {
    /// A listing line held no package name where one was expected.
    MissingName,
    /// A package name was not of the expected shape.
    IllegalName,
    /// Probing a package manager failed outright.
    CommandFailed(String),
    /// No package manager provider exists under this name.
    UnknownProvider(String),
}

/// The views of a sequence of strings.
pub open spec fn views_of(s: Seq<String>) -> Seq<Seq<char>> {
    s.map_values(|x: String| x@)
}

/// The names of a sequence of packages.
pub open spec fn package_names(s: Seq<Package>) -> Seq<Seq<char>> {
    s.map_values(|p: Package| p.name@)
}

/// Decide availability from what probing a manager's command yielded: a
/// completed probe answers with its success, a missing program means the
/// manager is unavailable, and any other failure is an error.
pub fn probe_outcome(probe: Result<Output, RunError>) -> (r: Result<bool, PackagesError>)
    ensures
        match probe {
            Ok(output) => r == Ok::<bool, PackagesError>(output.success),
            Err(RunError::NotFound) => r == Ok::<bool, PackagesError>(false),
            Err(RunError::Failed(message)) => r == Err::<bool, PackagesError>(
                PackagesError::CommandFailed(message),
            ),
        },
{
    match probe {
        Ok(output) => Ok(output.success),
        Err(RunError::NotFound) => Ok(false),
        Err(RunError::Failed(message)) => Err(PackagesError::CommandFailed(message)),
    }
}

/// The trait that describes a package manager: what it is called, what to
/// run, and how to read what it prints.
pub trait PackageManager {
    /// The name of this package manager.
    spec fn name_spec(&self) -> Seq<char>;

    /// Is this a primary package manager?
    fn primary(&self) -> bool;

    /// Might this package manager require interaction?
    fn needs_interaction(&self) -> bool;

    /// Hierarchy key to use for this package manager, where one differs from
    /// the name.
    fn key(&self) -> Option<&str>;

    /// Get the name of the current package manager.
    fn name(&self) -> (r: &str)
        ensures
            r@ == self.name_spec(),
    ;

    /// The command that probes whether this manager is usable.
    fn test_command(&self) -> Command;

    /// Whether this manager is usable, decided from the probe's outcome.
    fn test(&self, probe: Result<Output, RunError>) -> (r: Result<bool, PackagesError>)
        ensures
            match probe {
                Ok(output) => r == Ok::<bool, PackagesError>(output.success),
                Err(RunError::NotFound) => r == Ok::<bool, PackagesError>(false),
                Err(RunError::Failed(message)) => r == Err::<bool, PackagesError>(
                    PackagesError::CommandFailed(message),
                ),
            },
    ;

    /// The command that lists installed packages.
    fn list_command(&self) -> Command;

    /// The packages named by the listing the manager printed.
    fn list_packages(&self, lines: &Vec<String>) -> Result<Vec<Package>, PackagesError>;

    /// The commands that install the given packages.
    fn install_packages(&self, packages: &Vec<String>) -> Vec<Command>;
}

/// Whether a provider exists under this name.
pub open spec fn known_provider(name: Seq<char>) -> bool {
    name == "debian"@ || name == "pip"@ || name == "pip3"@ || name == "gem"@ || name == "cargo"@
        || name == "winget"@ || name == "rust toolchains"@ || name == "rust components"@
}

/// Which manager the given provider name constructs.
pub open spec fn provider_for(name: Seq<char>, m: Manager) -> bool {
    ||| name == "debian"@ && m is Debian
    ||| name == "pip"@ && m is Python && m->Python_0.name@ == "pip"@
    ||| name == "pip3"@ && m is Python && m->Python_0.name@ == "pip3"@
    ||| name == "gem"@ && m is Ruby
    ||| name == "cargo"@ && m is Cargo
    ||| name == "winget"@ && m is WinGet
    ||| name == "rust toolchains"@ && m is RustupToolchains
    ||| name == "rust components"@ && m is RustupComponents
}

/// One of the known package managers, as a closed sum so that a detected
/// manager can be held and dispatched without dynamic dispatch.
#[derive(Debug)]
pub enum Manager {
    Cargo(cargo::PackageManager),
    Debian(debian::PackageManager),
    Fedora(fedora::PackageManager),
    Python(python::PackageManager),
    Ruby(ruby::PackageManager),
    RustupComponents(rustup_components::PackageManager),
    RustupToolchains(rustup_toolchains::PackageManager),
    WinGet(winget::PackageManager),
}

/// A provider of package managers.
#[derive(Debug)]
pub struct Provider {
    default: Option<Manager>,
    arch: String,
}

/// Whether the facts name a distribution with debian packaging.
pub open spec fn facts_debian(facts: Facts) -> bool {
    facts@.contains_key(facts::DISTRO@) && facts@[facts::DISTRO@] == "debian"@
}

/// Whether the facts name an operating system with winget packaging.
pub open spec fn facts_winget(facts: Facts) -> bool {
    facts@.contains_key(facts::OS@) && facts@[facts::OS@] == "windows"@
}

/// Detect a candidate package manager by distribution: debian packaging for
/// a debian distribution, nothing for anything else. The caller still probes
/// the candidate for availability before using it.
pub fn by_distro(facts: &Facts) -> (r: Option<Manager>)
    ensures
        facts_debian(*facts) ==> (r matches Some(m) && m is Debian),
        !facts_debian(*facts) ==> r is None,
{
    match facts.get(facts::DISTRO) {
        None => None,
        Some(distro) => {
            if crate::strutil::str_eq(distro, "debian") {
                Some(Manager::Debian(debian::PackageManager::new()))
            } else {
                None
            }
        },
    }
}

/// Detect a candidate package manager by operating system: winget on
/// windows, nothing for anything else. The caller still probes the candidate
/// for availability before using it.
pub fn by_os(facts: &Facts) -> (r: Option<Manager>)
    ensures
        facts_winget(*facts) ==> (r matches Some(m) && m is WinGet),
        !facts_winget(*facts) ==> r is None,
{
    match facts.get(facts::OS) {
        None => None,
        Some(os) => {
            if crate::strutil::str_eq(os, "windows") {
                Some(Manager::WinGet(winget::PackageManager::new()))
            } else {
                None
            }
        },
    }
}

/// Detect which package manager to use by default, from the facts: first by
/// distribution, then by operating system. The caller still probes the
/// candidate for availability before using it.
pub fn detect(facts: &Facts, arch: &str) -> (r: Provider)
    ensures
        facts_debian(*facts) ==> (r.default_spec() matches Some(m) && m is Debian),
        !facts_debian(*facts) && facts_winget(*facts) ==> (r.default_spec() matches Some(m)
            && m is WinGet),
        !facts_debian(*facts) && !facts_winget(*facts) ==> r.default_spec() is None,
{
    let default = match by_distro(facts) {
        Some(default) => Some(default),
        None => by_os(facts),
    };
    Provider { default, arch: arch.to_owned() }
}

impl Manager {
    /// The name of the wrapped package manager.
    pub fn manager_name(&self) -> (r: &str)
        ensures
            r@ == self.name_of(),
    {
        match self {
            Manager::Cargo(m) => m.name(),
            Manager::Debian(m) => m.name(),
            Manager::Fedora(m) => m.name(),
            Manager::Python(m) => m.name(),
            Manager::Ruby(m) => m.name(),
            Manager::RustupComponents(m) => m.name(),
            Manager::RustupToolchains(m) => m.name(),
            Manager::WinGet(m) => m.name(),
        }
    }

    /// The name of the wrapped package manager.
    pub open spec fn name_of(&self) -> Seq<char> {
        match self {
            Manager::Cargo(m) => m.name_spec(),
            Manager::Debian(m) => m.name_spec(),
            Manager::Fedora(m) => m.name_spec(),
            Manager::Python(m) => m.name_spec(),
            Manager::Ruby(m) => m.name_spec(),
            Manager::RustupComponents(m) => m.name_spec(),
            Manager::RustupToolchains(m) => m.name_spec(),
            Manager::WinGet(m) => m.name_spec(),
        }
    }
}

impl Provider {
    /// The default manager, if one was detected.
    pub closed spec fn default_spec(&self) -> Option<Manager> {
        self.default
    }

    /// Access the default package manager if it is available.
    pub fn default(&self) -> (r: Option<&Manager>)
        ensures
            match r {
                Some(m) => self.default_spec() == Some(*m),
                None => self.default_spec() is None,
            },
    {
        match &self.default {
            Some(m) => Some(m),
            None => None,
        }
    }

    /// Look up a package manager by name: the default one when the name
    /// matches it, else a freshly constructed manager of that name, or an
    /// error for a name no provider exists under. The caller still probes a
    /// constructed manager for availability before using it.
    pub fn get(&self, name: &str) -> (r: Result<Option<Manager>, PackagesError>)
        ensures
            match r {
                Ok(Some(m)) => (self.default_spec() matches Some(d) && d.name_of() == name@
                    && m.name_of() == d.name_of()) || provider_for(name@, m),
                Ok(None) => false,
                Err(e) => !known_provider(name@) && (e matches PackagesError::UnknownProvider(n)
                    && n@ == name@),
            },
            known_provider(name@) ==> r is Ok,
    {
        match &self.default {
            Some(d) => {
                if crate::strutil::str_eq(d.manager_name(), name) {
                    let fresh = match d {
                        Manager::Cargo(_) => Manager::Cargo(cargo::PackageManager::new()),
                        Manager::Debian(_) => Manager::Debian(debian::PackageManager::new()),
                        Manager::Fedora(_) => Manager::Fedora(fedora::PackageManager::new()),
                        Manager::Python(m) => Manager::Python(
                            python::PackageManager::new(m.name.as_str()),
                        ),
                        Manager::Ruby(_) => Manager::Ruby(ruby::PackageManager::new()),
                        Manager::RustupComponents(_) => Manager::RustupComponents(
                            rustup_components::PackageManager::new(self.arch.as_str()),
                        ),
                        Manager::RustupToolchains(_) => Manager::RustupToolchains(
                            rustup_toolchains::PackageManager::new(self.arch.as_str()),
                        ),
                        Manager::WinGet(_) => Manager::WinGet(winget::PackageManager::new()),
                    };
                    return Ok(Some(fresh));
                }
            },
            None => {},
        }
        if crate::strutil::str_eq(name, "debian") {
            return Ok(Some(Manager::Debian(debian::PackageManager::new())));
        }
        if crate::strutil::str_eq(name, "pip") {
            let pip: &str = "pip";
            return Ok(Some(Manager::Python(python::PackageManager::new(pip))));
        }
        if crate::strutil::str_eq(name, "pip3") {
            let pip3: &str = "pip3";
            return Ok(Some(Manager::Python(python::PackageManager::new(pip3))));
        }
        if crate::strutil::str_eq(name, "gem") {
            return Ok(Some(Manager::Ruby(ruby::PackageManager::new())));
        }
        if crate::strutil::str_eq(name, "cargo") {
            return Ok(Some(Manager::Cargo(cargo::PackageManager::new())));
        }
        if crate::strutil::str_eq(name, "winget") {
            return Ok(Some(Manager::WinGet(winget::PackageManager::new())));
        }
        if crate::strutil::str_eq(name, "rust toolchains") {
            return Ok(Some(Manager::RustupToolchains(
                rustup_toolchains::PackageManager::new(self.arch.as_str()),
            )));
        }
        if crate::strutil::str_eq(name, "rust components") {
            return Ok(Some(Manager::RustupComponents(
                rustup_components::PackageManager::new(self.arch.as_str()),
            )));
        }
        Err(PackagesError::UnknownProvider(name.to_owned()))
    }
}

} // verus!
