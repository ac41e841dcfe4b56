//! Errors of a run.
use vstd::prelude::*;
use vstd::string::*;

verus! {

/// What can go wrong. The first two stop a run before any scanning; the others are reported
/// for a single file, or stop the run when the root itself cannot be read.
#[derive(Clone, Debug)]
pub enum OrganizerError {
    /// A read, metadata, create, remove or rename operation failed; holds the system's message.
    IoError(String),
    /// The root path does not exist.
    PathNotFound(String),
    /// The root path is not a directory.
    PathNotDirectory(String),
    /// A scanned entry has no file name.
    InvalidPath(String),
}

impl OrganizerError {
    /// The one-line message shown for the error.
    pub open spec fn spec_message(&self) -> Seq<char> {
        match self {
            OrganizerError::IoError(e) => "I/O error: "@ + e@,
            OrganizerError::PathNotFound(p) => "Path not found: "@ + p@,
            OrganizerError::PathNotDirectory(p) => "Path is not a directory: "@ + p@,
            OrganizerError::InvalidPath(m) => "Invalid path: "@ + m@,
        }
    }

    /// The one-line message shown for the error.
    pub fn message(&self) -> (r: String)
        ensures
            r@ == self.spec_message(),
    {
        match self {
            OrganizerError::IoError(e) => {
                let mut s = String::from_str("I/O error: ");
                s.append(e.as_str());
                s
            },
            OrganizerError::PathNotFound(p) => {
                let mut s = String::from_str("Path not found: ");
                s.append(p.as_str());
                s
            },
            OrganizerError::PathNotDirectory(p) => {
                let mut s = String::from_str("Path is not a directory: ");
                s.append(p.as_str());
                s
            },
            OrganizerError::InvalidPath(m) => {
                let mut s = String::from_str("Invalid path: ");
                s.append(m.as_str());
                s
            },
        }
    }
}

/// Checks the root of a run before anything is scanned, from what the file system said of it.
pub fn check_root(path: &str, exists: bool, is_dir: bool) -> (r: Result<(), OrganizerError>)
    ensures
        !exists ==> (r matches Err(OrganizerError::PathNotFound(p)) && p@ == path@),
        exists && !is_dir ==> (r matches Err(OrganizerError::PathNotDirectory(p)) && p@ == path@),
        exists && is_dir ==> r is Ok,
{
    if !exists {
        Err(OrganizerError::PathNotFound(String::from_str(path)))
    } else if !is_dir {
        Err(OrganizerError::PathNotDirectory(String::from_str(path)))
    } else {
        Ok(())
    }
}

} // verus!
