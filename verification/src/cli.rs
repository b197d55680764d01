//! What the user asks of the backup scheduler.

use vstd::prelude::*;

verus! {

/// The name of a backup to run by hand.
#[derive(Debug)]
pub struct ManualBackupCommand {
    pub name: String,
}

/// Which backups to run.
#[derive(Debug)]
pub enum BackupCommand {
    /// Those that are due.
    Scheduled,
    /// A full backup, now.
    Full(ManualBackupCommand),
    /// An incremental backup, now.
    Incremental(ManualBackupCommand),
}

/// What to do with the configuration.
#[derive(Clone, Copy, Debug, PartialEq, Eq, Structural)]
pub enum ConfigCommand {
    Setup,
    Edit,
    Verify,
    Show,
}

/// What to do with the logs.
#[derive(Clone, Copy, Debug, PartialEq, Eq, Structural)]
pub enum LogCommand {
    List,
    Show,
}

/// What the scheduler is asked to do.
#[derive(Debug)]
pub enum Command {
    Backup(BackupCommand),
    Config(ConfigCommand),
    Log(LogCommand),
    Summary,
}

/// The command line of the scheduler.
#[derive(Debug)]
pub struct Cli {
    pub config_file: Option<String>,
    pub force: bool,
    pub quiet: bool,
    pub subcommand: Command,
}

} // verus!
