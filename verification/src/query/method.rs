//! How a package is built.

use vstd::prelude::*;

verus! {

/// The tool that builds a package.
#[derive(Clone, Copy, Debug, PartialEq, Eq, Structural)]
pub enum BuildMethod {
    Make,
    Cargo,
}

/// The tool for a package, given which files it holds: `make` where it has
/// a makefile, else `cargo` where it has a file for it.
pub fn get_build_method(has_makefile: bool, has_cargo_file: bool) -> (method: Option<
    BuildMethod,
>)
    ensures
        method == (if has_makefile {
            Some(BuildMethod::Make)
        } else if has_cargo_file {
            Some(BuildMethod::Cargo)
        } else {
            None
        }),
{
    if has_makefile {
        Some(BuildMethod::Make)
    } else if has_cargo_file {
        Some(BuildMethod::Cargo)
    } else {
        None
    }
}

} // verus!
