//! The scanner's decisions: which directories to enter and what record a file gets.
use vstd::prelude::*;
use crate::category::{category_for, category_named, category_of, Category};
use crate::text::opt_text;

verus! {

/// One file found by the scanner.
#[derive(Clone, Debug)]
pub struct FileInfo {
    /// Where the file is, as the scanner found it.
    pub path: String,
    /// The file's own name, without its directory.
    pub name: String,
    /// The content type guessed from the name, if any.
    pub mime_type: Option<String>,
    /// The folder the file belongs in.
    pub category: Category,
    /// The size in bytes.
    pub size: u64,
}

/// The content type that the file name's extension maps to, if any.
pub uninterp spec fn guessed_content_type(file_name: Seq<char>) -> Option<Seq<char>>;

/// Relies on `mime_guess::from_path` and `MimeGuess::first_raw`: the first media type that
/// mime_guess's fixed extension table gives for the name, which depends on the name alone.
#[verifier::external_body]
fn guess_content_type(file_name: &str) -> (r: Option<String>)
    ensures
        opt_text(r) == guessed_content_type(file_name@),
{
    mime_guess::from_path(file_name).first_raw().map(String::from)
}

impl FileInfo {
    /// The record of a file whose content type is already known.
    pub fn new(path: String, name: String, mime_type: Option<String>, size: u64) -> (r: FileInfo)
        ensures
            r.path == path,
            r.name == name,
            r.mime_type == mime_type,
            r.size == size,
            r.category == category_of(opt_text(mime_type)),
    {
        let category = category_for(&mime_type);
        FileInfo { path, name, mime_type, category, size }
    }

    /// The record of a file, with its content type guessed from its name.
    pub fn from_entry(path: String, name: String, size: u64) -> (r: FileInfo)
        ensures
            r.path == path,
            r.name == name,
            r.size == size,
            opt_text(r.mime_type) == guessed_content_type(name@),
            r.category == category_of(guessed_content_type(name@)),
    {
        let mime_type = guess_content_type(name.as_str());
        FileInfo::new(path, name, mime_type, size)
    }
}

/// Whether the scanner enters a subdirectory of this name: only when scanning recursively,
/// and never into a category folder, which holds files organized before.
pub fn should_descend(dir_name: &str, recursive: bool) -> (r: bool)
    ensures
        r == (recursive && category_named(dir_name@).is_none()),
{
    recursive && Category::from_name(dir_name).is_none()
}

} // verus!
