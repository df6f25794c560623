//! Where the packages and the links to their executables are kept.

use vstd::prelude::*;
use crate::paths::{copy, names};

verus! {

/// The directories of one installation.
#[derive(Debug, Clone)]
pub struct Config {
    /// The directory of the packages.
    pub src: Vec<String>,
    /// The directory of the links to their executables.
    pub bin: Vec<String>,
}

/// Why the directories are not known.
#[derive(Clone, Copy, Debug, PartialEq, Eq, Structural)]
pub enum ConfigError {
    /// The home directory of the user is not set.
    HomeNotSet,
}

impl ConfigError {
    /// What is wrong, in words.
    pub fn to_string(&self) -> (text: String)
        ensures
            text@ == "HOME variable not set"@,
    {
        "HOME variable not set".to_owned()
    }
}

/// The path `base` followed by the name `name`.
pub fn child(base: &Vec<String>, name: &str) -> (path: Vec<String>)
    ensures
        names(path@) == names(base@).push(name@),
{
    let mut path = copy(base);
    path.push(name.to_owned());
    assert(names(path@) =~= names(base@).push(name@));
    path
}

/// The path `rel` below the home directory `home` of the user. A home
/// directory without any component is not set.
pub fn home_path(home: &Vec<String>, rel: &Vec<String>) -> (path: Result<Vec<String>, ConfigError>)
    ensures
        home@.len() == 0 ==> path == Err::<Vec<String>, ConfigError>(ConfigError::HomeNotSet),
        home@.len() > 0 ==> path is Ok && names(path->Ok_0@) == crate::paths::join_spec(
            names(home@),
            names(rel@),
        ),
{
    if home.len() == 0 {
        Err(ConfigError::HomeNotSet)
    } else {
        Ok(crate::paths::join(home, rel))
    }
}

/// The directory of an installation: the one that is set for it, else
/// `.osoy` in the home directory of the user.
pub open spec fn root_spec(osoy_home: Seq<Seq<char>>, home: Seq<Seq<char>>) -> Option<
    Seq<Seq<char>>,
> {
    if osoy_home.len() > 0 {
        Some(osoy_home)
    } else if home.len() > 0 {
        Some(home.push(".osoy"@))
    } else {
        None
    }
}

impl Config {
    /// The directories of the installation, from what the environment holds:
    /// the directory set for the installation and the home directory of the
    /// user, each without a component where it is not set. The packages are
    /// in `src` and the links in `bin` below the installation's directory.
    pub fn from_env(osoy_home: &Vec<String>, home: &Vec<String>) -> (config: Result<
        Config,
        ConfigError,
    >)
        ensures
            match root_spec(names(osoy_home@), names(home@)) {
                Some(root) => config is Ok && names(config->Ok_0.src@) == root.push("src"@)
                    && names(config->Ok_0.bin@) == root.push("bin"@),
                None => config is Err && config->Err_0 == ConfigError::HomeNotSet,
            },
    {
        let root = if osoy_home.len() > 0 {
            copy(osoy_home)
        } else if home.len() > 0 {
            child(home, ".osoy")
        } else {
            return Err(ConfigError::HomeNotSet);
        };
        Ok(Config { src: child(&root, "src"), bin: child(&root, "bin") })
    }
}

} // verus!
