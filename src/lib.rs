//! Sorts the files of a directory into category folders by content type.
//!
//! The library decides: how a file is classified, whether the scanner enters a directory,
//! where each file goes under a conflict policy, how the statistics of a run add up, and how
//! the interactive screens react. The program around it reads directories, moves files and
//! draws the screens.
pub mod category;
pub mod cli;
pub mod engine;
pub mod error;
pub mod format;
pub mod naming;
pub mod scan;
pub mod stats;
pub mod text;
pub mod tui;

pub use category::{categorize_file, category_for, Category};
pub use cli::{MyOrganizer, RunMode};
pub use engine::{ConflictPolicy, Destinations, MoveOutcome, MovePlan};
pub use error::OrganizerError;
pub use format::{format_size, truncate_str};
pub use naming::unique_name;
pub use scan::{should_descend, FileInfo};
pub use stats::{tally, OrganizeStats};
pub use tui::{CategoryProgress, Key, PreviewApp, PreviewScreen, PreviewStep, ProgressApp, SummaryApp};
