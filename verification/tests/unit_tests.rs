use quickcfg::system::Dependency as SystemDependency;
use quickcfg::unit::{AddMode, Dependency, Mode, RunOnce};

#[test]
fn add_mode_builds_unix_mode() {
    let mode = AddMode::new("/usr/local/bin/tool".to_string())
        .user(Mode::Read)
        .user(Mode::Write)
        .user(Mode::Execute)
        .group(Mode::Read)
        .group(Mode::Execute)
        .other(Mode::Execute);
    // rwx r-x --x
    assert_eq!(mode.unix_mode(), 0o751);
    assert!(mode.is_executable());
}

#[test]
fn add_mode_without_execute_bits() {
    let mode = AddMode::new("/etc/config".to_string()).user(Mode::Read).group(Mode::Read);
    assert_eq!(mode.unix_mode(), 0o440);
    assert!(!mode.is_executable());
}

#[test]
fn run_once_defaults() {
    let run = RunOnce::new("setup".to_string(), "/bin/setup".to_string());
    assert_eq!(run.id, "setup");
    assert_eq!(run.path, "/bin/setup");
    assert!(!run.shell);
    assert!(run.args.is_empty());
}

#[test]
fn resolve_walks_transitive_requirements() {
    let systems = vec![
        ("base".to_string(), SystemDependency::Direct(7)),
        ("alias".to_string(), SystemDependency::Transitive(vec!["base".to_string()])),
        ("empty".to_string(), SystemDependency::Nothing),
    ];
    let start = SystemDependency::Transitive(vec!["alias".to_string(), "empty".to_string()]);
    let resolved = start.resolve(&systems);
    assert_eq!(resolved, vec![Dependency::Unit(7)]);
}

#[test]
fn resolve_terminates_on_requirement_cycles() {
    let systems = vec![
        ("a".to_string(), SystemDependency::Transitive(vec!["b".to_string()])),
        ("b".to_string(), SystemDependency::Transitive(vec!["a".to_string()])),
        ("real".to_string(), SystemDependency::Direct(3)),
    ];
    let start = SystemDependency::Transitive(vec!["a".to_string(), "real".to_string()]);
    let resolved = start.resolve(&systems);
    assert_eq!(resolved, vec![Dependency::Unit(3)]);
}

#[test]
fn resolve_deduplicates_shared_requirements() {
    let systems = vec![
        ("base".to_string(), SystemDependency::Direct(1)),
        ("x".to_string(), SystemDependency::Transitive(vec!["base".to_string()])),
        ("y".to_string(), SystemDependency::Transitive(vec!["base".to_string()])),
    ];
    let start = SystemDependency::Transitive(vec!["x".to_string(), "y".to_string()]);
    let resolved = start.resolve(&systems);
    assert_eq!(resolved, vec![Dependency::Unit(1)]);
}

#[test]
fn resolve_ignores_unknown_names() {
    let start = SystemDependency::Transitive(vec!["ghost".to_string()]);
    let resolved = start.resolve(&vec![]);
    assert_eq!(resolved, vec![]);
}
