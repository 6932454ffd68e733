use git_foreach::command::{plan_invocation, settle, ProcessStatus, RunSpec, Shell};
use git_foreach::dispatch::{aggregate, exit_code};
use git_foreach::error::ForeachError;

fn ok() -> Result<(), ForeachError> {
    Ok(())
}

fn exited(path: &str, code: i32) -> Result<(), ForeachError> {
    settle(path.to_string(), ProcessStatus::Exited { code: Some(code) })
}

fn not_started(path: &str) -> Result<(), ForeachError> {
    settle(path.to_string(), ProcessStatus::NotStarted)
}

#[test]
fn all_succeed_exits_zero() {
    let result = aggregate(vec![ok(), exited("/a", 0), ok()]);
    assert!(result.is_ok());
    assert_eq!(exit_code(&result), 0);
}

#[test]
fn no_repositories_exits_zero() {
    let result = aggregate(vec![]);
    assert_eq!(exit_code(&result), 0);
}

#[test]
fn one_failure_gives_its_code() {
    let result = aggregate(vec![ok(), exited("/b", 42), ok()]);
    assert_eq!(exit_code(&result), 42);
}

#[test]
fn three_roots_middle_fails_with_three() {
    let spec = RunSpec { command: vec!["run".to_string()], quiet: false, dry_run: false };
    for root in ["A", "B", "C"] {
        let plan = plan_invocation(&spec, Shell::Posix, root);
        assert_eq!(plan.notice, Some(format!("Entering '{root}'")));
    }
    let outcomes = vec![exited("A", 0), exited("B", 3), exited("C", 0)];
    assert_eq!(outcomes.len(), 3);
    let result = aggregate(outcomes);
    match &result {
        Err(ForeachError::CommandExecutionFailedWithNonZeroExitCode { path, exit_code }) => {
            assert_eq!(path, "B");
            assert_eq!(*exit_code, 3);
        }
        other => panic!("unexpected {other:?}"),
    }
    assert_eq!(exit_code(&result), 3);
}

#[test]
fn start_failure_exits_one() {
    let result = aggregate(vec![ok(), not_started("/x"), exited("/y", 7)]);
    assert!(matches!(result, Err(ForeachError::CommandExecutionFailed { .. })));
    assert_eq!(exit_code(&result), 1);
}

#[test]
fn first_failure_in_order_wins() {
    let result = aggregate(vec![exited("/a", 5), not_started("/b"), exited("/c", 9)]);
    assert_eq!(exit_code(&result), 5);
}

#[test]
fn usage_error_keeps_parser_code() {
    let e = ForeachError::InvalidUsage { message: "usage".to_string(), exit_code: 2 };
    assert_eq!(e.get_exit_code(), 2);
    let help = ForeachError::InvalidUsage { message: "help".to_string(), exit_code: 0 };
    assert_eq!(exit_code(&Err(help)), 0);
}

#[test]
fn error_exit_codes() {
    assert_eq!(ForeachError::CommandExecutionFailed { path: "/p".to_string() }.get_exit_code(), 1);
    let e = ForeachError::CommandExecutionFailedWithNonZeroExitCode {
        path: "/p".to_string(),
        exit_code: 128,
    };
    assert_eq!(e.get_exit_code(), 128);
}
