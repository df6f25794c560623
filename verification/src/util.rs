//! Finding repositories, as the list command does.

use vstd::prelude::*;
use crate::paths::names;
use crate::repo::{iterate, Walk, WalkView};

verus! {

/// Begins the walk through the repositories below `dir`.
pub fn iter_repos(dir: Vec<String>) -> (walk: Walk)
    ensures
        walk@ == (WalkView { pending: seq![names(dir@)], at_root: true }),
{
    iterate(dir)
}

} // verus!
