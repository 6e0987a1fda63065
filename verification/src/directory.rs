//! The directory that holds the repository.

use vstd::prelude::*;

verus! {

/// Why a path does not name the repository's directory.
#[derive(Debug, PartialEq, Eq, Clone, Copy)]
pub enum DirectoryError {
    /// The file system knows no absolute form of the path.
    Unresolved,
    /// The path leads to something that is no directory.
    NotADirectory,
}

impl DirectoryError {
    /// What to tell the user.
    pub fn describe(&self) -> (text: &'static str)
        ensures
            text@ == (match self {
                DirectoryError::Unresolved => "Path cannot be resolved"@,
                DirectoryError::NotADirectory => "Path is not a directory"@,
            }),
    {
        match self {
            DirectoryError::Unresolved => "Path cannot be resolved",
            DirectoryError::NotADirectory => "Path is not a directory",
        }
    }
}

/// Decides on the repository's directory from what the file system says of
/// the path that the user gave: `canonical` is the path's absolute form
/// (`None` where there is none), `is_directory` whether that is a directory.
pub fn resolve_directory(canonical: Option<String>, is_directory: bool) -> (resolved: Result<
    String,
    DirectoryError,
>)
    ensures
        match canonical {
            None => resolved == Err::<String, DirectoryError>(DirectoryError::Unresolved),
            Some(path) => if is_directory {
                resolved == Ok::<String, DirectoryError>(path)
            } else {
                resolved == Err::<String, DirectoryError>(DirectoryError::NotADirectory)
            },
        },
{
    match canonical {
        None => Err(DirectoryError::Unresolved),
        Some(path) => if is_directory {
            Ok(path)
        } else {
            Err(DirectoryError::NotADirectory)
        },
    }
}

} // verus!
