//! What the file system tells of one entry.

use vstd::prelude::*;

verus! {

/// The bit of a file's mode that lets its owner execute it.
pub const OWNER_EXEC: u32 = 0o100;

/// What kind of thing a path names, links not followed.
#[derive(Clone, Copy, Debug, PartialEq, Eq, Structural)]
pub enum FileKind {
    File,
    Directory,
    Symlink,
    Other,
}

/// One entry of a directory, with what was read of it.
#[derive(Debug)]
pub struct Node {
    /// The components of its path.
    pub path: Vec<String>,
    /// Its kind, links not followed; `None` where it could not be read.
    pub kind: Option<FileKind>,
    /// Whether it is a regular file, links followed.
    pub is_file: bool,
    /// Its mode, links followed; `None` where it could not be read.
    pub mode: Option<u32>,
    /// The path that it stands for once all links are followed.
    pub target: Vec<String>,
    /// The mode of what it stands for; `None` where that could not be read.
    pub target_mode: Option<u32>,
}

/// A mode that lets the owner execute the file.
pub open spec fn is_exe_spec(mode: Option<u32>) -> bool {
    match mode {
        Some(bits) => bits & OWNER_EXEC > 0,
        None => false,
    }
}

/// Whether a file with this mode can be executed by its owner. A file whose
/// mode could not be read cannot.
pub fn is_exe(mode: Option<u32>) -> (yes: bool)
    ensures
        yes == is_exe_spec(mode),
{
    match mode {
        Some(bits) => bits & OWNER_EXEC > 0,
        None => false,
    }
}

/// Whether an entry of this kind is a symbolic link. An entry whose kind
/// could not be read is none.
pub fn is_symlink(kind: Option<FileKind>) -> (yes: bool)
    ensures
        yes == (kind == Some(FileKind::Symlink)),
{
    match kind {
        Some(FileKind::Symlink) => true,
        _ => false,
    }
}

} // verus!
