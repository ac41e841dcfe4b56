//! The settings of a run, as given on the command line, and which path a run takes.
use vstd::prelude::*;
use crate::engine::ConflictPolicy;

verus! {

/// The settings of one run.
#[derive(Clone, Debug)]
pub struct MyOrganizer {
    /// The directory to organize.
    pub path: String,
    /// Decide and show everything, move nothing.
    pub dry_run: bool,
    /// Print a line for every file.
    pub verbose: bool,
    /// What to do when a destination name is taken.
    pub conflict: ConflictPolicy,
    /// Also organize files in subdirectories, except category folders.
    pub recursive: bool,
    /// Use the terminal screens.
    pub interactive: bool,
}

/// Which path a run takes.
#[derive(Clone, Copy, Debug, PartialEq, Eq, Structural)]
pub enum RunMode {
    /// The preview screen; nothing is moved.
    InteractivePreview,
    /// The progress screen, then the summary screen.
    InteractiveRun,
    /// A printed table of what would happen.
    PlainPreview,
    /// A printed line per file as it is moved.
    PlainRun,
}

impl MyOrganizer {
    /// The path this run takes: screens only when asked for, and the preview only in a dry run.
    pub fn mode(&self) -> (r: RunMode)
        ensures
            r == if self.interactive {
                if self.dry_run {
                    RunMode::InteractivePreview
                } else {
                    RunMode::InteractiveRun
                }
            } else if self.dry_run {
                RunMode::PlainPreview
            } else {
                RunMode::PlainRun
            },
    {
        if self.interactive {
            if self.dry_run {
                RunMode::InteractivePreview
            } else {
                RunMode::InteractiveRun
            }
        } else if self.dry_run {
            RunMode::PlainPreview
        } else {
            RunMode::PlainRun
        }
    }
}

} // verus!
