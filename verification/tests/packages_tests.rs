use quickcfg::command::{Output, RunError};
use quickcfg::facts::Facts;
use quickcfg::packages::cargo::Cargo;
use quickcfg::packages::debian::{Apt, DpkgQuery};
use quickcfg::packages::fedora::Dnf;
use quickcfg::packages::python::Pip;
use quickcfg::packages::ruby::Gem;
use quickcfg::packages::winget::WinGet;
use quickcfg::packages::{detect, probe_outcome, Manager, PackagesError, Provider};
use quickcfg::rustup::Rustup;

fn lines(raw: &[&str]) -> Vec<String> {
    raw.iter().map(|s| s.to_string()).collect()
}

fn names(packages: Vec<quickcfg::packages::Package>) -> Vec<String> {
    packages.into_iter().map(|p| p.name).collect()
}

#[test]
fn probe_decision() {
    let ok = Output { success: true, stdout: String::new(), stderr: String::new() };
    assert_eq!(probe_outcome(Ok(ok)), Ok(true));
    let bad = Output { success: false, stdout: String::new(), stderr: String::new() };
    assert_eq!(probe_outcome(Ok(bad)), Ok(false));
    assert_eq!(probe_outcome(Err(RunError::NotFound)), Ok(false));
    assert_eq!(
        probe_outcome(Err(RunError::Failed("boom".to_string()))),
        Err(PackagesError::CommandFailed("boom".to_string()))
    );
}

#[test]
fn cargo_listing() {
    let cargo = Cargo::new();
    let listing = lines(&["ripgrep v13.0.0:", "    rg", "", "bat v0.24.0:", "    bat"]);
    assert_eq!(
        names(cargo.list_installed(&listing).unwrap()),
        vec!["ripgrep".to_string(), "bat".to_string()]
    );

    let command = cargo.list_command();
    assert_eq!(command.name, "cargo");
    assert_eq!(command.args, vec!["install".to_string(), "--list".to_string()]);

    let install = cargo.install_packages(&vec!["ripgrep".to_string()]);
    assert_eq!(install.args, vec!["install".to_string(), "ripgrep".to_string()]);
}

#[test]
fn dpkg_listing_filters_status() {
    let q = DpkgQuery::new();
    let listing = lines(&["ii git", "rc old-thing", "ii curl", ""]);
    assert_eq!(
        names(q.list_installed(&listing).unwrap()),
        vec!["git".to_string(), "curl".to_string()]
    );
}

#[test]
fn dpkg_listing_missing_name_errors() {
    let q = DpkgQuery::new();
    let listing = lines(&["ii git", "iii"]);
    assert_eq!(q.list_installed(&listing), Err(PackagesError::MissingName));
}

#[test]
fn apt_install_goes_through_sudo() {
    let apt = Apt::new();
    let install = apt.install_packages(&vec!["git".to_string(), "curl".to_string()]);
    assert_eq!(install.name, "sudo");
    assert_eq!(
        install.args,
        vec![
            "-p".to_string(),
            "[sudo] password for %u to install packages: ".to_string(),
            "--".to_string(),
            "apt".to_string(),
            "install".to_string(),
            "-y".to_string(),
            "git".to_string(),
            "curl".to_string(),
        ]
    );
}

#[test]
fn dnf_listing_skips_header_and_strips_arch() {
    let dnf = Dnf::new();
    let listing = lines(&["Installed Packages", "git.x86_64 2.43", "curl.x86_64 8.2", ""]);
    assert_eq!(
        names(dnf.list_installed(&listing).unwrap()),
        vec!["git".to_string(), "curl".to_string()]
    );
}

#[test]
fn dnf_listing_without_dot_errors() {
    let dnf = Dnf::new();
    let listing = lines(&["Installed Packages", "git 2.43"]);
    assert_eq!(dnf.list_installed(&listing), Err(PackagesError::IllegalName));
}

#[test]
fn pip_listing() {
    let pip = Pip::new("pip3");
    let listing = lines(&["Package    Version", "---------- -------", "requests   2.31"]);
    assert_eq!(
        names(pip.list_installed(&listing).unwrap()),
        vec!["Package".to_string(), "----------".to_string(), "requests".to_string()]
    );
    assert_eq!(pip.test_command().name, "pip3");
}

#[test]
fn gem_listing() {
    let gem = Gem::new();
    let listing = lines(&["rake (13.1.0)", "", "json (2.7.1)"]);
    assert_eq!(
        names(gem.list_installed(&listing).unwrap()),
        vec!["rake".to_string(), "json".to_string()]
    );
    let install = gem.install_packages(&vec!["rake".to_string()]);
    assert_eq!(
        install.args,
        vec!["install".to_string(), "--user-install".to_string(), "rake".to_string()]
    );
}

#[test]
fn rustup_listing_strips_architecture() {
    let rustup = Rustup::new("toolchain", "install");
    let listing = lines(&[
        "stable-x86_64-unknown-linux-gnu (default)",
        "nightly-x86_64-unknown-linux-gnu (installed)",
        "beta-x86_64-unknown-linux-gnu",
        "  indented",
    ]);
    assert_eq!(
        names(rustup.list_installed(&listing, "x86_64-unknown-linux-gnu").unwrap()),
        vec!["stable".to_string(), "nightly".to_string()]
    );
    let command = rustup.list_command();
    assert_eq!(command.args, vec!["toolchain".to_string(), "list".to_string()]);
    let install = rustup.install_packages(&vec!["stable".to_string()]);
    assert_eq!(
        install.args,
        vec!["toolchain".to_string(), "install".to_string(), "stable".to_string()]
    );
}

#[test]
fn winget_listing_parses_products() {
    let winget = WinGet::new();
    let products = lines(&[
        "Mozilla.Firefox.121.0.1.msi",
        "weird.thing.1.msi",
        "Google.Chrome.120.0.6099.msi",
    ]);
    assert_eq!(
        names(winget.list_installed(&products).unwrap()),
        vec!["Mozilla.Firefox".to_string(), "Google.Chrome".to_string()]
    );
}

#[test]
fn winget_listing_stops_at_non_msi() {
    let winget = WinGet::new();
    let products = lines(&[
        "Mozilla.Firefox.121.0.1.msi",
        "Something.Else.1.0.0.exe",
        "Google.Chrome.120.0.6099.msi",
    ]);
    // The walk stops at the first non-msi product.
    assert_eq!(
        names(winget.list_installed(&products).unwrap()),
        vec!["Mozilla.Firefox".to_string()]
    );
}

#[test]
fn winget_installs_one_command_per_package() {
    let winget = WinGet::new();
    let commands =
        winget.install_packages(&vec!["Mozilla.Firefox".to_string(), "Git.Git".to_string()]);
    assert_eq!(commands.len(), 2);
    assert_eq!(
        commands[0].args,
        vec!["install".to_string(), "-e".to_string(), "Mozilla.Firefox".to_string()]
    );
    assert_eq!(
        commands[1].args,
        vec!["install".to_string(), "-e".to_string(), "Git.Git".to_string()]
    );
}

#[test]
fn detect_by_distro_and_os() {
    let arch = "x86_64-unknown-linux-gnu";
    let debian = Facts::new(vec![
        ("distro".to_string(), "debian".to_string()),
        ("os".to_string(), "linux".to_string()),
    ]);
    let provider = detect(&debian, arch);
    assert!(matches!(provider.default(), Some(Manager::Debian(_))));

    let windows = Facts::new(vec![("os".to_string(), "windows".to_string())]);
    let provider = detect(&windows, arch);
    assert!(matches!(provider.default(), Some(Manager::WinGet(_))));

    let other = Facts::new(vec![("os".to_string(), "linux".to_string())]);
    let provider = detect(&other, arch);
    assert!(provider.default().is_none());
}

#[test]
fn provider_lookup_by_name() {
    let arch = "x86_64-unknown-linux-gnu";
    let facts = Facts::new(vec![("os".to_string(), "linux".to_string())]);
    let provider: Provider = detect(&facts, arch);

    assert!(matches!(provider.get("cargo"), Ok(Some(Manager::Cargo(_)))));
    assert!(matches!(provider.get("pip3"), Ok(Some(Manager::Python(_)))));
    assert!(matches!(
        provider.get("rust toolchains"),
        Ok(Some(Manager::RustupToolchains(_)))
    ));
    assert!(matches!(
        provider.get("nonesuch"),
        Err(PackagesError::UnknownProvider(n)) if n == "nonesuch"
    ));
}
