//! Packages abstraction for rustup toolchains.

use vstd::prelude::*;

use crate::command::{Command, Output, RunError};
use crate::packages::{Package, PackagesError};
use crate::rustup::Rustup;

verus! {

/// Packages abstraction for rustup toolchains.
#[derive(Debug)]
pub struct PackageManager {
    /// The wrapped rustup command.
    pub rustup: Rustup,
    /// The architecture suffix listings carry, e.g. `x86_64-unknown-linux-gnu`.
    pub arch: String,
}

impl PackageManager {
    /// Construct a new rustup toolchain package manager, for listings
    /// carrying the given architecture suffix.
    pub fn new(arch: &str) -> (r: Self)
        ensures
            r.rustup.wf(),
            r.rustup.sub_command@ == "toolchain"@,
            r.rustup.install@ == "install"@,
            r.arch@ == arch@,
    {
        PackageManager { rustup: Rustup::new("toolchain", "install"), arch: arch.to_owned() }
    }
}

impl super::PackageManager for PackageManager {
    open spec fn name_spec(&self) -> Seq<char> {
        "rust toolchains"@
    }

    fn primary(&self) -> bool {
        true
    }

    fn needs_interaction(&self) -> bool {
        false
    }

    fn key(&self) -> Option<&str> {
        Some("rust::toolchains")
    }

    fn name(&self) -> (r: &str) {
        "rust toolchains"
    }

    fn test_command(&self) -> Command {
        self.rustup.test_command()
    }

    fn test(&self, probe: Result<Output, RunError>) -> (r: Result<bool, PackagesError>) {
        self.rustup.test(probe)
    }

    fn list_command(&self) -> Command {
        self.rustup.list_command()
    }

    fn list_packages(&self, lines: &Vec<String>) -> Result<Vec<Package>, PackagesError> {
        self.rustup.list_installed(lines, self.arch.as_str())
    }

    fn install_packages(&self, packages: &Vec<String>) -> Vec<Command> {
        let mut out: Vec<Command> = Vec::new();
        out.push(self.rustup.install_packages(packages));
        out
    }
}

} // verus!
