use vstd::prelude::*;
use vstd::string::StringExecFns;

use crate::error::{ForeachError, failure_code};

verus! {

/// The view of each string of a sequence.
pub open spec fn views(v: Seq<String>) -> Seq<Seq<char>> {
    v.map_values(|s: String| s@)
}

/// Tokens joined with a single space between neighbours.
pub open spec fn joined(tokens: Seq<Seq<char>>) -> Seq<char>
    decreases tokens.len(),
{
    if tokens.len() == 0 {
        Seq::empty()
    } else if tokens.len() == 1 {
        tokens[0]
    } else {
        joined(tokens.drop_last()) + seq![' '] + tokens.last()
    }
}

/// Joins the command tokens with single spaces, as a shell would receive them.
///
/// No quoting is applied: a token holding a space or a shell metacharacter
/// reaches the shell as it is.
pub fn join_command(tokens: &Vec<String>) -> (r: String)
    ensures
        r@ == joined(views(tokens@)),
{
    if tokens.len() == 0 {
        return String::new();
    }
    let mut r = tokens[0].clone();
    let mut i: usize = 1;
    proof {
        reveal_strlit(" ");
        assert(views(tokens@).subrange(0, 1) =~= seq![tokens@[0]@]);
    }
    while i < tokens.len()
        invariant
            1 <= i <= tokens.len(),
            r@ == joined(views(tokens@).subrange(0, i as int)),
        decreases tokens.len() - i,
    {
        r.append(" ");
        r.append(tokens[i].as_str());
        proof {
            reveal_strlit(" ");
            let s = views(tokens@).subrange(0, i as int + 1);
            assert(s.drop_last() =~= views(tokens@).subrange(0, i as int));
            assert(s.last() == tokens@[i as int]@);
        }
        i = i + 1;
    }
    proof {
        assert(views(tokens@).subrange(0, tokens@.len() as int) =~= views(tokens@));
    }
    r
}

/// The command interpreter that receives the joined command.
#[derive(Clone, Copy, PartialEq, Eq, Structural, Debug)]
pub enum Shell {
    /// `/bin/sh -c <command>`
    Posix,
    /// `cmd /C <command>`
    Windows,
}

/// The interpreter's program.
pub open spec fn program_of(shell: Shell) -> Seq<char> {
    match shell {
        Shell::Posix => "/bin/sh"@,
        Shell::Windows => "cmd"@,
    }
}

/// The interpreter's flag that precedes the command.
pub open spec fn flag_of(shell: Shell) -> Seq<char> {
    match shell {
        Shell::Posix => "-c"@,
        Shell::Windows => "/C"@,
    }
}

impl Shell {
    /// The interpreter's program.
    pub fn program(&self) -> (r: String)
        ensures
            r@ == program_of(*self),
    {
        match self {
            Shell::Posix => String::from_str("/bin/sh"),
            Shell::Windows => String::from_str("cmd"),
        }
    }

    /// The interpreter's flag that precedes the command.
    pub fn flag(&self) -> (r: String)
        ensures
            r@ == flag_of(*self),
    {
        match self {
            Shell::Posix => String::from_str("-c"),
            Shell::Windows => String::from_str("/C"),
        }
    }
}

/// What to run in every repository, and how.
pub struct RunSpec {
    /// The command's tokens, joined with spaces before they reach the shell.
    pub command: Vec<String>,
    /// No notice is printed on entering a repository.
    pub quiet: bool,
    /// Nothing is run; what would be run is described instead.
    pub dry_run: bool,
}

/// One process to start: `program flag command`, in the directory `dir`.
pub struct Invocation {
    pub program: String,
    pub flag: String,
    pub command: String,
    pub dir: String,
}

/// What to do in one repository.
pub enum Action {
    /// Print the line and count the repository as a success; start nothing.
    Describe(String),
    /// Start the process and wait for it.
    Spawn(Invocation),
}

/// The steps for one repository: a notice to print first, if any, then the action.
pub struct Plan {
    pub notice: Option<String>,
    pub action: Action,
}

/// The notice printed on entering a repository.
pub open spec fn entering_line(dir: Seq<char>) -> Seq<char> {
    "Entering '"@ + dir + "'"@
}

/// The line that a dry run prints in place of running the command.
pub open spec fn dry_run_line(shell: Shell, command: Seq<char>, dir: Seq<char>) -> Seq<char> {
    "dry-run: would run '"@ + program_of(shell) + " "@ + flag_of(shell) + " \""@ + command
        + "\"' in '"@ + dir + "'"@
}

/// The steps that `spec` asks for in the repository at `dir`, under `shell`.
pub open spec fn plan_matches(r: Plan, spec: RunSpec, shell: Shell, dir: Seq<char>) -> bool {
    let command = joined(views(spec.command@));
    &&& (spec.quiet ==> r.notice is None)
    &&& (!spec.quiet ==> r.notice is Some && r.notice.unwrap()@ == entering_line(dir))
    &&& (spec.dry_run ==> r.action is Describe
        && r.action->Describe_0@ == dry_run_line(shell, command, dir))
    &&& (!spec.dry_run ==> r.action is Spawn
        && r.action->Spawn_0.program@ == program_of(shell)
        && r.action->Spawn_0.flag@ == flag_of(shell)
        && r.action->Spawn_0.command@ == command
        && r.action->Spawn_0.dir@ == dir)
}

/// The notice printed on entering the repository at `dir`.
pub fn entering_notice(dir: &str) -> (r: String)
    ensures
        r@ == entering_line(dir@),
{
    String::from_str("Entering '").concat(dir).concat("'")
}

/// The line that a dry run prints for the repository at `dir`.
pub fn dry_run_notice(shell: Shell, command: &str, dir: &str) -> (r: String)
    ensures
        r@ == dry_run_line(shell, command@, dir@),
{
    let program = shell.program();
    let flag = shell.flag();
    String::from_str("dry-run: would run '").concat(program.as_str()).concat(" ").concat(
        flag.as_str(),
    ).concat(" \"").concat(command).concat("\"' in '").concat(dir).concat("'")
}

/// Decides what to do in the repository at `dir`: the shell receives the
/// command's tokens joined with single spaces and runs with `dir` as its
/// working directory; a dry run only describes that.
pub fn plan_invocation(spec: &RunSpec, shell: Shell, dir: &str) -> (r: Plan)
    ensures
        plan_matches(r, *spec, shell, dir@),
{
    let notice = if spec.quiet {
        None
    } else {
        Some(entering_notice(dir))
    };
    let command = join_command(&spec.command);
    let action = if spec.dry_run {
        Action::Describe(dry_run_notice(shell, command.as_str(), dir))
    } else {
        Action::Spawn(
            Invocation {
                program: shell.program(),
                flag: shell.flag(),
                command,
                dir: String::from_str(dir),
            },
        )
    };
    Plan { notice, action }
}

/// How a started process ended, or that it could not be started.
pub enum ProcessStatus {
    /// The interpreter could not be started.
    NotStarted,
    /// The process exited; `code` is its exit code where the platform
    /// reports one (not for a process killed by a signal). The run succeeded
    /// exactly when the code is 0.
    Exited { code: Option<i32> },
}

/// The outcome for the repository at `path` that a process status gives.
pub open spec fn outcome_of(path: String, status: ProcessStatus) -> Result<(), ForeachError> {
    match status {
        ProcessStatus::NotStarted => Err(ForeachError::CommandExecutionFailed { path }),
        ProcessStatus::Exited { code } => match code {
            Some(0) => Ok(()),
            Some(c) => Err(ForeachError::CommandExecutionFailedWithNonZeroExitCode { path, exit_code: c }),
            None => Err(ForeachError::CommandExecutionFailedWithNonZeroExitCode { path, exit_code: 1 }),
        },
    }
}

/// The outcome for the repository at `path` once its process has ended:
/// success for exit code 0, the failing exit code otherwise (1 where none was
/// reported), or a failure to start.
pub fn settle(path: String, status: ProcessStatus) -> (r: Result<(), ForeachError>)
    ensures
        r == outcome_of(path, status),
{
    match status {
        ProcessStatus::NotStarted => Err(ForeachError::CommandExecutionFailed { path }),
        ProcessStatus::Exited { code } => {
            match code {
                Some(0) => Ok(()),
                Some(c) => Err(ForeachError::CommandExecutionFailedWithNonZeroExitCode { path, exit_code: c }),
                None => Err(ForeachError::CommandExecutionFailedWithNonZeroExitCode { path, exit_code: 1 }),
            }
        },
    }
}

/// A failed command never ends with exit code 0: every failure that a
/// process status gives carries a non-zero code.
pub proof fn lemma_failure_code_nonzero(path: String, status: ProcessStatus)
    ensures
        outcome_of(path, status) is Err ==> failure_code(outcome_of(path, status)->Err_0) != 0,
{
}

/// The outcome for a repository once its action is done.
pub open spec fn concluded(path: String, action: Action, status: ProcessStatus) -> Result<(), ForeachError> {
    match action {
        Action::Describe(_) => Ok(()),
        Action::Spawn(_) => outcome_of(path, status),
    }
}

/// The outcome for the repository at `path` once its action is done: a
/// described action succeeds without anything having been started, and its
/// `status` is not read; a started process settles by its status.
pub fn conclude(path: String, action: &Action, status: ProcessStatus) -> (r: Result<(), ForeachError>)
    ensures
        r == concluded(path, *action, status),
{
    match action {
        Action::Describe(_) => Ok(()),
        Action::Spawn(_) => settle(path, status),
    }
}

/// A dry run starts nothing and succeeds, whatever the status handed back;
/// the line it prints names the interpreter, its flag, the joined command and
/// the repository's directory.
pub proof fn lemma_dry_run(
    r: Plan,
    spec: RunSpec,
    shell: Shell,
    dir: String,
    status: ProcessStatus,
)
    requires
        spec.dry_run,
        plan_matches(r, spec, shell, dir@),
    ensures
        !(r.action is Spawn),
        concluded(dir, r.action, status) is Ok,
        r.action->Describe_0@ == "dry-run: would run '"@ + program_of(shell) + " "@ + flag_of(shell)
            + " \""@ + joined(views(spec.command@)) + "\"' in '"@ + dir@ + "'"@,
{
}

} // verus!
