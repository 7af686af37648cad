use vstd::prelude::*;
use vstd::string::StringExecFns;

verus! {

/// What the operator asked for on the command line.
#[derive(Debug)]
pub struct Cli {
    pub command: DmtCommand,
    /// The configuration file.
    pub config: String,
}

/// The commands.
#[derive(Debug)]
pub enum DmtCommand {
    /// Create a new migration.
    New(NewMigrationArgs),
    /// Apply all outstanding migrations.
    Migrate,
    /// Revert the applied migrations.
    Rollback,
}

/// The arguments of `new`.
#[derive(Debug)]
pub struct NewMigrationArgs {
    /// The name of the new migration.
    pub name: String,
}

/// The configuration file read when none is named.
pub fn default_config_path() -> (r: String)
    ensures
        r@ == "./dmt.config.yml"@,
{
    String::from_str("./dmt.config.yml")
}

impl Cli {
    /// The command line of `command`, with the configuration file given, or the default.
    pub fn new(command: DmtCommand, config: Option<String>) -> (r: Cli)
        ensures
            r.command == command,
            match config {
                Some(c) => r.config == c,
                None => r.config@ == "./dmt.config.yml"@,
            },
    {
        let config = match config {
            Some(c) => c,
            None => default_config_path(),
        };
        Cli { command, config }
    }
}

} // verus!
