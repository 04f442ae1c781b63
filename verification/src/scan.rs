//! Error taxonomy and admission checks for a file scan.

use vstd::prelude::*;

verus! {

/// Largest file size, in bytes, that a scan accepts.
pub const MAX_FILESIZE: u64 = 2147483648;

/// The ways a scan can fail.
#[derive(Clone, Copy, Debug, PartialEq, Eq, Structural)]
pub enum ScanError {
    /// The target path names a directory where a regular file was expected.
    NotAFile,
    /// The target file's size exceeds `MAX_FILESIZE`.
    FileTooLarge,
    /// The underlying stat, open, read or directory listing failed.
    IoError,
    /// No target path was supplied on invocation.
    MissingArgument,
}

impl ScanError {
    /// The human-readable diagnostic for this error.
    pub fn message(&self) -> (m: String)
        ensures
            *self == ScanError::NotAFile ==> m@ == "This is a directory!"@,
            *self == ScanError::FileTooLarge ==> m@ == "File too large"@,
            *self == ScanError::IoError ==> m@ == "I/O error"@,
            *self == ScanError::MissingArgument ==> m@ == "No path provided!"@,
    {
        match self {
            ScanError::NotAFile => "This is a directory!".to_owned(),
            ScanError::FileTooLarge => "File too large".to_owned(),
            ScanError::IoError => "I/O error".to_owned(),
            ScanError::MissingArgument => "No path provided!".to_owned(),
        }
    }
}

/// Decides whether a target may be scanned, from its stat data: a directory is
/// refused as `NotAFile`, an oversized file as `FileTooLarge`, and every other
/// target is admitted. The directory check comes first, so a directory is
/// refused whatever its reported length.
pub fn check_target(is_dir: bool, file_length: u64) -> (r: Result<(), ScanError>)
    ensures
        is_dir ==> r == Err::<(), ScanError>(ScanError::NotAFile),
        !is_dir && file_length > MAX_FILESIZE ==> r == Err::<(), ScanError>(ScanError::FileTooLarge),
        !is_dir && file_length <= MAX_FILESIZE ==> r == Ok::<(), ScanError>(()),
{
    if is_dir {
        Err(ScanError::NotAFile)
    } else if file_length > MAX_FILESIZE {
        Err(ScanError::FileTooLarge)
    } else {
        Ok(())
    }
}

/// Picks the root path out of the invocation's arguments: the first positional
/// argument (the entry after the program name) is the root; with no positional
/// argument the run is refused as `MissingArgument`.
pub fn select_root_arg(args: &Vec<String>) -> (r: Result<String, ScanError>)
    ensures
        args@.len() < 2 ==> r == Err::<String, ScanError>(ScanError::MissingArgument),
        args@.len() >= 2 ==> r is Ok && r->Ok_0 == args@[1],
{
    if args.len() < 2 {
        Err(ScanError::MissingArgument)
    } else {
        Ok(args[1].clone())
    }
}

} // verus!
