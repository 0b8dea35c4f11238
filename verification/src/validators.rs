//! Checks of the paths given on the command line.
//!
//! Whether a path is a directory and what may be done with it is found out by
//! the caller; what follows from it is decided here. Such facts can change
//! between the check and the use of the path.

use vstd::prelude::*;
use crate::text::followed_by;

verus! {

/// What the file system says of a path.
#[derive(Debug, Clone, Copy, PartialEq, Eq, Structural)]
pub struct Access {
    /// The path is a directory
    pub is_dir: bool,
    /// The path can be opened for reading
    pub readable: bool,
    /// The path can be read and entered
    pub traversable: bool,
}

/// Why a path is no input file, if it is none.
pub open spec fn file_refusal(shown: Seq<char>, access: Access) -> Option<Seq<char>> {
    if access.is_dir {
        Some(shown + ": Input path must be a file, not a directory"@)
    } else if access.readable {
        None
    } else {
        Some("Would be unable to write to destination file: "@ + shown)
    }
}

/// Why a path is no input directory, if it is none.
pub open spec fn dir_refusal(shown: Seq<char>, access: Access) -> Option<Seq<char>> {
    if !access.is_dir {
        Some("Not a directory: "@ + shown)
    } else if access.traversable {
        None
    } else {
        Some("Would be unable to read and traverse destination directory: "@ + shown)
    }
}

/// Why a path is neither an input file nor an input directory, if it is neither.
pub open spec fn file_or_dir_refusal(shown: Seq<char>, access: Access) -> Option<Seq<char>> {
    if file_refusal(shown, access) is None || dir_refusal(shown, access) is None {
        None
    } else {
        Some("Not a readable file or directory: "@ + shown)
    }
}

/// What a check's result says: the refusal, or none.
pub open spec fn refusal(result: Result<(), String>) -> Option<Seq<char>> {
    match result {
        Ok(_) => None,
        Err(message) => Some(message@),
    }
}

/// Accepts a path to a file that can be opened for reading. `shown` is the
/// path as messages display it.
pub fn path_input_file(shown: &str, access: &Access) -> (result: Result<(), String>)
    ensures
        refusal(result) == file_refusal(shown@, *access),
{
    if access.is_dir {
        return Err(followed_by(shown, ": Input path must be a file, not a directory"));
    }
    if access.readable {
        return Ok(());
    }
    Err(followed_by("Would be unable to write to destination file: ", shown))
}

/// Accepts a path to a directory that can be read and entered.
pub fn path_input_dir(shown: &str, access: &Access) -> (result: Result<(), String>)
    ensures
        refusal(result) == dir_refusal(shown@, *access),
{
    if !access.is_dir {
        return Err(followed_by("Not a directory: ", shown));
    }
    if access.traversable {
        return Ok(());
    }
    Err(followed_by("Would be unable to read and traverse destination directory: ", shown))
}

/// Accepts a path that [`path_input_file`] or [`path_input_dir`] accepts.
pub fn path_input_file_or_dir(shown: &str, access: &Access) -> (result: Result<(), String>)
    ensures
        refusal(result) == file_or_dir_refusal(shown@, *access),
{
    if path_input_file(shown, access).is_ok() || path_input_dir(shown, access).is_ok() {
        return Ok(());
    }
    Err(followed_by("Not a readable file or directory: ", shown))
}

} // verus!
