//! The failures that the library reports.

use vstd::prelude::*;
use crate::text::joined;

verus! {

/// What went wrong.
#[derive(Clone, Copy, Debug, PartialEq, Eq, Structural)]
pub enum ErrorKind {
    /// A configuration is malformed or lacks something it must have.
    Config,
    /// A mapping pattern is not a regular expression.
    RegexCompile,
    /// A target exists, is no symlink, and may not be overwritten.
    FilesystemConflict,
    /// A target could not be examined for want of permission.
    PermissionDenied,
    /// A process could not be started.
    ProcessSpawn,
    /// A git command ended with a failure status.
    GitCommand,
    /// A hook ended with a failure status.
    HookFailed,
}

/// A failure, with the profile it arose in where that is known.
#[derive(Clone, Debug, PartialEq, Eq)]
pub struct Error {
    pub profile_path: String,
    pub kind: ErrorKind,
    pub message: String,
}

impl Error {
    /// This error is of `kind`, names `path` and says `message`.
    pub open spec fn is(&self, kind: ErrorKind, path: Seq<char>, message: Seq<char>) -> bool {
        &&& self.kind == kind
        &&& self.profile_path@ == path
        &&& self.message@ == message
    }

    /// An error that names no profile.
    pub fn new(kind: ErrorKind, message: &str) -> (e: Error)
        ensures
            e.is(kind, Seq::empty(), message@),
    {
        Error { profile_path: String::new(), kind, message: message.to_owned() }
    }

    /// The same error, said of the profile at `path`.
    pub fn at(self, path: &str) -> (e: Error)
        ensures
            e.is(self.kind, path@, self.message@),
    {
        Error { profile_path: path.to_owned(), kind: self.kind, message: self.message }
    }

    /// The text shown for this error: the profile's path, a colon and a
    /// space, then the message.
    pub open spec fn describe_spec(&self) -> Seq<char> {
        self.profile_path@ + seq![':', ' '] + self.message@
    }

    /// The text shown for this error.
    pub fn describe(&self) -> (s: String)
        ensures
            s@ == self.describe_spec(),
    {
        proof {
            reveal_strlit(": ");
            assert(": "@ =~= seq![':', ' ']);
        }
        let mut out = joined(self.profile_path.as_str(), ": ");
        out.append(self.message.as_str());
        out
    }
}

} // verus!
