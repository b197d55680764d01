//! What the user asks of the file backup.

use crate::paths::{parent, spec_parent};
use crate::text::str_eq;
use vstd::prelude::*;
use vstd::string::*;

verus! {

/// What to do with the backups of the file, where it is not to make one.
#[derive(Clone, Copy, Debug, PartialEq, Eq, Structural)]
pub enum Command {
    /// List the backups of the file.
    List,
    /// Delete the backups of the file.
    Wipe,
    /// Show how the file differs from its backup of this index.
    Diff { index: u8 },
}

/// The file to back up, where to keep its backups and how many of them.
#[derive(Debug)]
pub struct Cli {
    pub subcommand: Option<Command>,
    pub file: String,
    pub dir: Option<String>,
    pub num: u8,
    pub force: bool,
    pub quiet: bool,
}

impl Cli {
    /// The directory that keeps the backups: the directory of application
    /// data where `-` is given, else the directory that is given, else the
    /// directory that holds the file. `None` where no directory is given
    /// and the file stands in none.
    pub open spec fn spec_dir(&self, app_data_dir: Seq<char>) -> Option<Seq<char>> {
        match self.dir {
            Some(dir) => if dir@ == "-"@ {
                Some(app_data_dir)
            } else {
                Some(dir@)
            },
            None => spec_parent(self.file@),
        }
    }

    /// The directory that keeps the backups.
    pub fn dir(&self, app_data_dir: &str) -> (r: Option<String>)
        ensures
            match r {
                Some(dir) => self.spec_dir(app_data_dir@) == Some(dir@),
                None => self.spec_dir(app_data_dir@) is None,
            },
    {
        match &self.dir {
            Some(dir) => {
                if str_eq(dir.as_str(), "-") {
                    Some(String::from_str(app_data_dir))
                } else {
                    Some(dir.clone())
                }
            },
            None => parent(self.file.as_str()),
        }
    }
}

} // verus!
