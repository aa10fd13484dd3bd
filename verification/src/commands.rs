//! The tool's subcommands, as data.
//!
//! Each command is a unit value whose name anchors argument parsing and shell
//! completion.  Running a command is I/O from end to end — configuration,
//! resolvers, launchers — and lives with the caller; the command values and
//! their names are what the library pins down.

use vstd::prelude::*;
use vstd::string::StringExecFns;

verus! {

/// Lists the applications configured to run against repositories.
pub struct AppsCommand {}

impl AppsCommand {
    /// The subcommand's name.
    pub fn name(&self) -> (r: String)
        ensures
            r@ == "apps"@,
    {
        "apps".to_owned()
    }
}

/// Creates a new repository.
pub struct NewCommand {}

impl NewCommand {
    /// The subcommand's name.
    pub fn name(&self) -> (r: String)
        ensures
            r@ == "new"@,
    {
        "new".to_owned()
    }
}

/// Lists the configured repository hosting services.
pub struct ServicesCommand {}

impl ServicesCommand {
    /// The subcommand's name.
    pub fn name(&self) -> (r: String)
        ensures
            r@ == "services"@,
    {
        "services".to_owned()
    }
}

/// Prints the shell-specific initialization script.
pub struct ShellInitCommand {}

impl ShellInitCommand {
    /// The subcommand's name.
    pub fn name(&self) -> (r: String)
        ensures
            r@ == "shell-init"@,
    {
        "shell-init".to_owned()
    }
}

} // verus!
