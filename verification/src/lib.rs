//! Rotating backups of single files, and scheduled backups of directory
//! trees with archives and copies to remotes.

pub mod archive;
pub mod bak;
pub mod backup;
pub mod backup_job;
pub mod cli;
pub mod cmd;
pub mod config;
pub mod due;
pub mod error;
pub mod host;
pub mod job;
pub mod paths;
pub mod run;
pub mod run_name;
pub mod runner;
pub mod schedule;
pub mod sync;
pub mod text;
