use tpacpi_install::command::{exit_outcome, invocation, parse_command, SetupError};
use tpacpi_install::install::{install_self, install_tpacpi_bat};
use tpacpi_install::module::apply_kernel_mod;
use tpacpi_install::repo::{create_dependent_repo, repo_path};

fn strings(words: &[&str]) -> Vec<String> {
    words.iter().map(|w| w.to_string()).collect()
}

#[test]
fn invocation_keeps_words_and_directory() {
    let c = invocation(vec!["git", "fetch"], Some("/srv/x"));
    assert_eq!(c.argv, strings(&["git", "fetch"]));
    assert_eq!(c.dir, Some("/srv/x".to_string()));
    let c = invocation(vec![], None);
    assert!(c.argv.is_empty());
    assert_eq!(c.dir, None);
}

#[test]
fn install_tpacpi_bat_copies_the_helper() {
    let c = install_tpacpi_bat();
    assert_eq!(c.argv, strings(&["sudo", "cp", "tpacpi-bat", "/usr/bin"]));
    assert_eq!(c.dir, None);
}

#[test]
fn install_self_copies_and_registers() {
    let s = install_self("install");
    assert_eq!(s.copy.argv, strings(&["sudo", "cp", "install", "/usr/bin"]));
    assert_eq!(s.copy.dir, None);
    assert_eq!(s.list.argv, strings(&["sudo", "crontab", "-l"]));
    assert_eq!(s.list.dir, None);
    assert_eq!(s.line, "@reboot /usr/bin/install --apply");
    assert_eq!(s.replace.argv, strings(&["sudo", "crontab", "-"]));
    assert_eq!(s.replace.dir, None);
}

#[test]
fn repo_path_lies_in_the_users_home() {
    assert_eq!(repo_path("ada"), "/home/ada/acpi_call");
    assert_eq!(repo_path("--apply"), "/home/--apply/acpi_call");
    assert_eq!(repo_path(""), "/home//acpi_call");
}

#[test]
fn create_dependent_repo_clones_what_is_absent() {
    let path = "/home/ada/acpi_call";
    let v = create_dependent_repo(path, false);
    assert_eq!(v.len(), 5);
    assert_eq!(
        v[0].argv,
        strings(&["git", "clone", "git://github.com/nix-community/acpi_call.git", path])
    );
    assert_eq!(v[0].dir, None);
    assert_eq!(v[1].argv, strings(&["git", "fetch"]));
    assert_eq!(v[2].argv, strings(&["git", "reset", "HEAD", "--hard"]));
    assert_eq!(v[3].argv, strings(&["git", "clean", "-fd"]));
    assert_eq!(v[4].argv, strings(&["git", "checkout", "origin/master"]));
    for c in &v[1..] {
        assert_eq!(c.dir, Some(path.to_string()));
    }
}

#[test]
fn create_dependent_repo_refreshes_what_exists() {
    let path = "/home/ada/acpi_call";
    let fresh = create_dependent_repo(path, false);
    let again = create_dependent_repo(path, true);
    assert_eq!(again.len(), 4);
    for (a, b) in again.iter().zip(&fresh[1..]) {
        assert_eq!(a.argv, b.argv);
        assert_eq!(a.dir, b.dir);
    }
    assert!(again.iter().all(|c| c.argv[1] != "clone"));
}

#[test]
fn apply_kernel_mod_builds_installs_and_loads() {
    let path = "/home/ada/acpi_call";
    let v = apply_kernel_mod(path);
    assert_eq!(v.len(), 4);
    assert_eq!(v[0].argv, strings(&["make"]));
    assert_eq!(v[1].argv, strings(&["sudo", "make", "install"]));
    assert_eq!(v[2].argv, strings(&["sudo", "depmod"]));
    assert_eq!(v[3].argv, strings(&["sudo", "modprobe", "acpi_call"]));
    for c in &v {
        assert_eq!(c.dir, Some(path.to_string()));
    }
}

#[test]
fn parse_command_parts_program_and_arguments() {
    let r = parse_command(&strings(&["sudo", "make", "install"]));
    assert_eq!(r, Ok(("sudo".to_string(), strings(&["make", "install"]))));
    let r = parse_command(&strings(&["make"]));
    assert_eq!(r, Ok(("make".to_string(), Vec::new())));
}

#[test]
fn parse_command_refuses_a_command_without_program() {
    assert_eq!(parse_command(&Vec::new()), Err(SetupError::InvalidCommand));
    assert_eq!(parse_command(&strings(&["", "x"])), Err(SetupError::InvalidCommand));
}

#[test]
fn exit_outcome_lets_only_zero_pass() {
    assert_eq!(exit_outcome(Some(0)), Ok(()));
    assert_eq!(exit_outcome(Some(1)), Err(SetupError::CommandFailed(1)));
    assert_eq!(exit_outcome(Some(-7)), Err(SetupError::CommandFailed(-7)));
    assert_eq!(exit_outcome(None), Err(SetupError::CommandKilled));
}

#[test]
fn message_names_each_error() {
    assert_eq!(SetupError::InvalidCommand.message(), "Invalid command");
    assert_eq!(SetupError::CommandFailed(2).message(), "Command failed");
    assert_eq!(
        SetupError::CommandKilled.message(),
        "Command ended without an exit code"
    );
}
