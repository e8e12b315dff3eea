//! The options of one run.

use vstd::prelude::*;

verus! {

/// The options as they come from the command line.
#[derive(Debug, Clone, PartialEq, Eq)]
pub struct CliInput {
    /// Allow empty commits when tasks revert all staged changes.
    pub allow_empty: bool,
    /// Disable the runner's own console output.
    pub quiet: bool,
    /// Pass relative file paths to tasks.
    pub relative: bool,
    /// Run the rules concurrently.
    pub concurrent: bool,
    /// Path to the configuration file.
    pub config: Option<String>,
    /// Run all tasks in this directory instead of the current one.
    pub cwd: Option<String>,
    /// Skip parsing of tasks for better shell support.
    pub shell: bool,
    /// Turn debugging information on.
    pub debug: bool,
    /// Show task output even when tasks succeed.
    pub verbose: bool,
    /// Leave all task modifications in the index when aborting the commit.
    pub no_stash: bool,
}

/// The options of a run, with the working directory settled.
#[derive(Debug, Clone, PartialEq, Eq)]
pub struct CliOptions {
    pub allow_empty: bool,
    pub quiet: bool,
    pub relative: bool,
    pub concurrent: bool,
    pub config: Option<String>,
    pub cwd: String,
    pub shell: bool,
    pub debug: bool,
    pub verbose: bool,
    pub no_stash: bool,
}

impl CliOptions {
    /// Settles the working directory: the one that the command line names,
    /// else `current_dir`. Every other option is taken over as it is.
    pub fn from_input(input: CliInput, current_dir: String) -> (options: CliOptions)
        ensures
            options.cwd == (match input.cwd {
                Some(dir) => dir,
                None => current_dir,
            }),
            options.allow_empty == input.allow_empty,
            options.quiet == input.quiet,
            options.relative == input.relative,
            options.concurrent == input.concurrent,
            options.config == input.config,
            options.shell == input.shell,
            options.debug == input.debug,
            options.verbose == input.verbose,
            options.no_stash == input.no_stash,
    {
        CliOptions {
            allow_empty: input.allow_empty,
            quiet: input.quiet,
            relative: input.relative,
            concurrent: input.concurrent,
            config: input.config,
            cwd: match input.cwd {
                Some(dir) => dir,
                None => current_dir,
            },
            shell: input.shell,
            debug: input.debug,
            verbose: input.verbose,
            no_stash: input.no_stash,
        }
    }
}

} // verus!
