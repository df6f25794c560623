//! What every operation of the command line does.

use vstd::prelude::*;
use crate::config::Config;

verus! {

/// An operation that can be carried out on an installation.
pub trait Exec {
    /// Carries the operation out; returns the number of errors.
    fn exec(self, config: Config) -> i32;
}

} // verus!
