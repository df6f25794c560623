//! The directories in which packages and links were kept at first.

use vstd::prelude::*;
use crate::config::child;
use crate::paths::names;

verus! {

/// The directories of the packages and of the links to their executables.
#[derive(Debug)]
pub struct DataDirectories {
    pub packages: Vec<String>,
    pub bin: Vec<String>,
}

/// Why the directories cannot be used.
#[derive(Clone, Copy, Debug, PartialEq, Eq, Structural)]
pub enum DataDirError {
    /// The user has no home directory.
    NoHome,
    /// The directory of the packages could not be created.
    Packages,
    /// The directory of the links could not be created.
    Bin,
}

impl DataDirError {
    pub open spec fn message_spec(self) -> Seq<char> {
        match self {
            DataDirError::NoHome => "home directory not found"@,
            DataDirError::Packages => "could not create packages directory"@,
            DataDirError::Bin => "could not create bin directory"@,
        }
    }

    /// What is wrong, in words.
    pub fn to_string(&self) -> (text: String)
        ensures
            text@ == self.message_spec(),
    {
        match self {
            DataDirError::NoHome => "home directory not found".to_owned(),
            DataDirError::Packages => "could not create packages directory".to_owned(),
            DataDirError::Bin => "could not create bin directory".to_owned(),
        }
    }
}

/// The directories below the home directory of the user: `.osoy/packages`
/// and `.osoy/bin`. Without a home directory there are none.
pub fn data_dirs(home: Option<&Vec<String>>) -> (dirs: Result<DataDirectories, DataDirError>)
    ensures
        match home {
            Some(home) => dirs is Ok && names(dirs->Ok_0.packages@) == names(home@).push(
                ".osoy"@,
            ).push("packages"@) && names(dirs->Ok_0.bin@) == names(home@).push(".osoy"@).push(
                "bin"@,
            ),
            None => dirs is Err && dirs->Err_0 == DataDirError::NoHome,
        },
{
    match home {
        Some(home) => {
            let root = child(home, ".osoy");
            Ok(DataDirectories { packages: child(&root, "packages"), bin: child(&root, "bin") })
        },
        None => Err(DataDirError::NoHome),
    }
}

} // verus!
