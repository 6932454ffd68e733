use git_foreach::command::{
    conclude, dry_run_notice, entering_notice, join_command, plan_invocation, settle, Action,
    ProcessStatus, RunSpec, Shell,
};
use git_foreach::error::ForeachError;

fn tokens(words: &[&str]) -> Vec<String> {
    words.iter().map(|w| w.to_string()).collect()
}

#[test]
fn join_command_uses_single_spaces() {
    assert_eq!(join_command(&tokens(&["git", "status", "-s"])), "git status -s");
    assert_eq!(join_command(&tokens(&["echo"])), "echo");
    assert_eq!(join_command(&tokens(&[])), "");
}

#[test]
fn join_command_does_not_quote() {
    assert_eq!(join_command(&tokens(&["echo", "a b", "&&", "ls"])), "echo a b && ls");
}

#[test]
fn shells_name_their_interpreter() {
    assert_eq!(Shell::Posix.program(), "/bin/sh");
    assert_eq!(Shell::Posix.flag(), "-c");
    assert_eq!(Shell::Windows.program(), "cmd");
    assert_eq!(Shell::Windows.flag(), "/C");
}

#[test]
fn entering_notice_names_the_directory() {
    assert_eq!(entering_notice("/src/a"), "Entering '/src/a'");
}

#[test]
fn dry_run_notice_names_shell_command_and_directory() {
    assert_eq!(
        dry_run_notice(Shell::Posix, "echo hello", "/src/a"),
        "dry-run: would run '/bin/sh -c \"echo hello\"' in '/src/a'"
    );
    assert_eq!(
        dry_run_notice(Shell::Windows, "dir", "C:\\src"),
        "dry-run: would run 'cmd /C \"dir\"' in 'C:\\src'"
    );
}

#[test]
fn plan_spawns_the_joined_command() {
    let spec = RunSpec { command: tokens(&["git", "pull"]), quiet: false, dry_run: false };
    let plan = plan_invocation(&spec, Shell::Posix, "/src/a");
    assert_eq!(plan.notice.as_deref(), Some("Entering '/src/a'"));
    match plan.action {
        Action::Spawn(inv) => {
            assert_eq!(inv.program, "/bin/sh");
            assert_eq!(inv.flag, "-c");
            assert_eq!(inv.command, "git pull");
            assert_eq!(inv.dir, "/src/a");
        }
        Action::Describe(_) => panic!("expected a process to start"),
    }
}

#[test]
fn quiet_plan_has_no_notice() {
    let spec = RunSpec { command: tokens(&["ls"]), quiet: true, dry_run: false };
    let plan = plan_invocation(&spec, Shell::Posix, "/src/a");
    assert!(plan.notice.is_none());
}

#[test]
fn dry_run_plan_describes_and_succeeds() {
    let spec = RunSpec { command: tokens(&["echo", "hello"]), quiet: false, dry_run: true };
    let plan = plan_invocation(&spec, Shell::Posix, "/src/b");
    assert_eq!(plan.notice.as_deref(), Some("Entering '/src/b'"));
    match &plan.action {
        Action::Describe(line) => {
            assert_eq!(line, "dry-run: would run '/bin/sh -c \"echo hello\"' in '/src/b'")
        }
        Action::Spawn(_) => panic!("a dry run starts nothing"),
    }
    let outcome = conclude("/src/b".to_string(), &plan.action, ProcessStatus::NotStarted);
    assert!(outcome.is_ok());
}

#[test]
fn settle_success() {
    let status = ProcessStatus::Exited { code: Some(0) };
    assert!(settle("/r".to_string(), status).is_ok());
}

#[test]
fn settle_non_zero_exit_keeps_code() {
    let status = ProcessStatus::Exited { code: Some(3) };
    match settle("/r".to_string(), status) {
        Err(ForeachError::CommandExecutionFailedWithNonZeroExitCode { path, exit_code }) => {
            assert_eq!(path, "/r");
            assert_eq!(exit_code, 3);
        }
        other => panic!("unexpected {other:?}"),
    }
}

#[test]
fn settle_signal_defaults_to_one() {
    let status = ProcessStatus::Exited { code: None };
    match settle("/r".to_string(), status) {
        Err(ForeachError::CommandExecutionFailedWithNonZeroExitCode { exit_code, .. }) => {
            assert_eq!(exit_code, 1)
        }
        other => panic!("unexpected {other:?}"),
    }
}

#[test]
fn settle_start_failure() {
    match settle("/r".to_string(), ProcessStatus::NotStarted) {
        Err(ForeachError::CommandExecutionFailed { path }) => assert_eq!(path, "/r"),
        other => panic!("unexpected {other:?}"),
    }
}

#[test]
fn conclude_spawned_reads_status() {
    let spec = RunSpec { command: tokens(&["false"]), quiet: true, dry_run: false };
    let plan = plan_invocation(&spec, Shell::Posix, "/r");
    let status = ProcessStatus::Exited { code: Some(1) };
    assert!(conclude("/r".to_string(), &plan.action, status).is_err());
}
