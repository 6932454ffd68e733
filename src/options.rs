use vstd::prelude::*;

use crate::command::RunSpec;
use crate::walk::TreeWalk;

verus! {

/// The validated configuration of one run.
pub struct Options {
    /// No notice is printed on entering a repository.
    pub quiet: bool,
    /// The root of the search for repositories.
    pub directory: String,
    /// Hidden files and directories are searched too.
    pub hidden: bool,
    /// Ignore files such as `.gitignore` are not respected.
    pub no_ignore: bool,
    /// Nothing is run; what would be run is described instead.
    pub dry_run: bool,
    /// The command and its arguments.
    pub command: Vec<String>,
}

/// Initializes the directory walker from the options: hidden entries are
/// skipped unless asked for, ignore files are respected unless turned off.
pub fn walk_from_options(options: &Options) -> (r: TreeWalk)
    ensures
        r.config() == (options.directory@, !options.hidden, !options.no_ignore),
{
    TreeWalk::new(options.directory.as_str(), !options.hidden, !options.no_ignore)
}

impl Options {
    /// What to run in every repository, and how.
    pub fn into_run_spec(self) -> (r: RunSpec)
        ensures
            r.command@ == self.command@,
            r.quiet == self.quiet,
            r.dry_run == self.dry_run,
    {
        RunSpec { command: self.command, quiet: self.quiet, dry_run: self.dry_run }
    }
}

} // verus!
