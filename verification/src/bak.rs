//! Rotating backups of one file. Beside a file `name` stands its first
//! backup `name.bak`; from the second backup on there are numbered backups
//! `name.bak.0`, `name.bak.1` and so on, `name.bak.0` being the newest.
//! A backup is only made where the file differs from its last backup, and
//! no more than a given number of numbered backups are kept.

pub mod cli;
pub mod mirror;
pub mod model;
pub mod names;
pub mod rotation;

use crate::text::{from_chars, push_str, to_chars};
use vstd::prelude::*;
use vstd::string::*;

verus! {

/// The name of the program and of its directory of application data.
pub const BAK9: &'static str = "bak9";

/// What was being done to a file when it failed.
#[derive(Clone, Copy, Debug, PartialEq, Eq, Structural)]
pub enum IoOp {
    Read,
    Write,
    Delete,
    Rename,
    Create,
}

impl IoOp {
    /// The name of the operation in messages.
    pub open spec fn spec_name(self) -> Seq<char> {
        match self {
            IoOp::Read => "read"@,
            IoOp::Write => "write"@,
            IoOp::Delete => "delete"@,
            IoOp::Rename => "rename"@,
            IoOp::Create => "create"@,
        }
    }

    /// The name of the operation in messages.
    pub fn to_string(&self) -> (s: String)
        ensures
            s@ == self.spec_name(),
    {
        match self {
            IoOp::Read => String::from_str("read"),
            IoOp::Write => String::from_str("write"),
            IoOp::Delete => String::from_str("delete"),
            IoOp::Rename => String::from_str("rename"),
            IoOp::Create => String::from_str("create"),
        }
    }
}

/// What can go wrong while a file is backed up.
#[derive(Debug)]
pub enum Error {
    /// A file operation failed.
    IO { op: IoOp, path: String, cause: String },
    /// The file could not be copied to its backup.
    Copy { src: String, dest: String, cause: String },
    /// The file has no backup with this index.
    Index { src: String, index: u8 },
    /// Any other failure.
    Generic(String),
}

/// An error as mathematical data.
pub enum ErrorView {
    IO { op: IoOp, path: Seq<char>, cause: Seq<char> },
    Copy { src: Seq<char>, dest: Seq<char>, cause: Seq<char> },
    Index { src: Seq<char>, index: u8 },
    Generic(Seq<char>),
}

impl View for Error {
    type V = ErrorView;

    open spec fn view(&self) -> ErrorView {
        match *self {
            Error::IO { op, path, cause } => ErrorView::IO { op, path: path@, cause: cause@ },
            Error::Copy { src, dest, cause } => ErrorView::Copy {
                src: src@,
                dest: dest@,
                cause: cause@,
            },
            Error::Index { src, index } => ErrorView::Index { src: src@, index },
            Error::Generic(message) => ErrorView::Generic(message@),
        }
    }
}

impl ErrorView {
    /// The line that tells a person of the error.
    pub open spec fn message(self) -> Seq<char> {
        match self {
            ErrorView::IO { op, path, cause } => "Unable to "@ + op.spec_name() + " "@ + path
                + ": "@ + cause,
            ErrorView::Copy { src, dest, cause } => "Unable to copy "@ + src + " to "@ + dest
                + ": "@ + cause,
            ErrorView::Index { src, index } => "Invalid index for "@ + src + ": "@
                + crate::text::decimal(index as nat),
            ErrorView::Generic(message) => message,
        }
    }
}

impl Error {
    /// The operation `op` failed on `path`, because of `cause`.
    pub fn io(op: IoOp, path: &str, cause: &str) -> (e: Error)
        ensures
            e@ == (ErrorView::IO { op, path: path@, cause: cause@ }),
    {
        Error::IO { op, path: String::from_str(path), cause: String::from_str(cause) }
    }

    /// The file `source` has no backup with the index `index`.
    pub fn index(source: &str, index: u8) -> (e: Error)
        ensures
            e@ == (ErrorView::Index { src: source@, index }),
    {
        Error::Index { src: String::from_str(source), index }
    }

    /// The file `source` could not be copied to `destination`, because of
    /// `cause`.
    pub fn copy(source: &str, destination: &str, cause: &str) -> (e: Error)
        ensures
            e@ == (ErrorView::Copy { src: source@, dest: destination@, cause: cause@ }),
    {
        Error::Copy {
            src: String::from_str(source),
            dest: String::from_str(destination),
            cause: String::from_str(cause),
        }
    }

    /// The line that tells a person of the error.
    pub fn to_string(&self) -> (s: String)
        ensures
            s@ == self@.message(),
    {
        let mut out: Vec<char> = Vec::new();
        match self {
            Error::IO { op, path, cause } => {
                let name = op.to_string();
                push_str(&mut out, "Unable to ");
                push_str(&mut out, name.as_str());
                push_str(&mut out, " ");
                push_str(&mut out, path.as_str());
                push_str(&mut out, ": ");
                push_str(&mut out, cause.as_str());
            },
            Error::Copy { src, dest, cause } => {
                push_str(&mut out, "Unable to copy ");
                push_str(&mut out, src.as_str());
                push_str(&mut out, " to ");
                push_str(&mut out, dest.as_str());
                push_str(&mut out, ": ");
                push_str(&mut out, cause.as_str());
            },
            Error::Index { src, index } => {
                push_str(&mut out, "Invalid index for ");
                push_str(&mut out, src.as_str());
                push_str(&mut out, ": ");
                crate::text::push_decimal(&mut out, *index as u32);
            },
            Error::Generic(message) => {
                push_str(&mut out, message.as_str());
            },
        }
        assert(out@ =~= self@.message());
        from_chars(&out)
    }
}

} // verus!
