use quickcfg::command::Command;
use quickcfg::opts::{NoRootError, Opts};
use quickcfg::os;
use quickcfg::strutil;

#[test]
fn command_collects_arguments() {
    let mut cmd = Command::new("git".to_string());
    cmd.arg("fetch".to_string());
    cmd.args(&vec!["origin".to_string(), "main".to_string()]);
    cmd.working_directory("/repo".to_string());
    assert_eq!(cmd.name, "git");
    assert_eq!(
        cmd.args,
        vec!["fetch".to_string(), "origin".to_string(), "main".to_string()]
    );
    assert_eq!(cmd.working_directory, Some("/repo".to_string()));
}

#[test]
fn opts_root_resolution() {
    let mut opts = Opts::default();
    assert_eq!(opts.root(None), Err(NoRootError));
    assert_eq!(opts.root(Some("/home/u/.config")), Ok("/home/u/.config/quickcfg".to_string()));
    opts.root = Some("/explicit".to_string());
    assert_eq!(opts.root(Some("/home/u/.config")), Ok("/explicit".to_string()));
}

#[test]
fn os_command_names_are_plain() {
    assert_eq!(os::command("git"), "git");
    assert_eq!(os::exe_path("tool"), "tool");
    assert_eq!(os::detect_git(), "git");
}

#[test]
fn trimming_and_tokens() {
    assert_eq!(strutil::trim_str("  spaced out \t"), "spaced out");
    assert_eq!(strutil::trim_str(""), "");
    assert_eq!(strutil::first_token_str("one two three"), "one");
    assert_eq!(strutil::second_token_str("one two three"), Some("two".to_string()));
    assert_eq!(strutil::second_token_str("alone"), None);
    assert_eq!(strutil::dash_trim_str("--stable-"), "stable");
    assert_eq!(strutil::str_eq("same", "same"), true);
    assert_eq!(strutil::str_eq("same", "other"), false);
}

#[test]
fn splitting() {
    let pieces = strutil::split_str("a.b..c", '.');
    assert_eq!(
        pieces,
        vec!["a".to_string(), "b".to_string(), "".to_string(), "c".to_string()]
    );
    assert_eq!(strutil::split_str("nodots", '.'), vec!["nodots".to_string()]);
}
