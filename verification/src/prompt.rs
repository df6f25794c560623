//! How prompts are answered when the user is not to be asked.

use vstd::prelude::*;
use crate::text::{append, chars, string};

verus! {

/// The answer given to every prompt.
#[derive(Clone, Copy, Debug, PartialEq, Eq, Structural)]
pub enum Answer {
    /// Yes to everything.
    Force,
    /// What each prompt proposes.
    Default,
    /// No to everything.
    Deny,
    /// None: the user is asked.
    Undefined,
}

/// The names of the flags that are set, with `", "` between them.
pub open spec fn conflict_list(force: bool, default: bool, deny: bool) -> Seq<char> {
    let first = if force {
        "force"@
    } else {
        Seq::empty()
    };
    let second = if default {
        if first.len() > 0 {
            first + ", "@ + "default"@
        } else {
            "default"@
        }
    } else {
        first
    };
    if deny {
        if second.len() > 0 {
            second + ", "@ + "deny"@
        } else {
            "deny"@
        }
    } else {
        second
    }
}

/// The answer that the flags stand for, or the complaint about flags that
/// contradict each other.
pub open spec fn answer_spec(force: bool, default: bool, deny: bool) -> Result<Answer, Seq<char>> {
    if !force && !default && !deny {
        Ok(Answer::Undefined)
    } else if force && !default && !deny {
        Ok(Answer::Force)
    } else if default && !force && !deny {
        Ok(Answer::Default)
    } else if deny && !force && !default {
        Ok(Answer::Deny)
    } else {
        Err("answer conflict: "@ + conflict_list(force, default, deny))
    }
}

/// What `Answer::new` returns, as plain values.
pub open spec fn answer_view(made: Result<Answer, String>) -> Result<Answer, Seq<char>> {
    match made {
        Ok(answer) => Ok(answer),
        Err(text) => Err(text@),
    }
}

impl Answer {
    /// The answer for the flags of the command line. At most one of them may
    /// be set; more than one is refused with the list of those set.
    pub fn new(force: bool, default: bool, deny: bool) -> (made: Result<Answer, String>)
        ensures
            answer_view(made) == answer_spec(force, default, deny),
    {
        if !(force || default || deny) {
            Ok(Answer::Undefined)
        } else if force && !(default || deny) {
            Ok(Answer::Force)
        } else if default && !(force || deny) {
            Ok(Answer::Default)
        } else if deny && !(force || default) {
            Ok(Answer::Deny)
        } else {
            let comma = chars(", ");
            let mut list: Vec<char> = Vec::new();
            if force {
                append(&mut list, &chars("force"));
            }
            if default {
                if list.len() > 0 {
                    append(&mut list, &comma);
                }
                append(&mut list, &chars("default"));
            }
            if deny {
                if list.len() > 0 {
                    append(&mut list, &comma);
                }
                append(&mut list, &chars("deny"));
            }
            let mut text = chars("answer conflict: ");
            append(&mut text, &list);
            proof {
                assert(list@ =~= conflict_list(force, default, deny));
            }
            Err(string(&text))
        }
    }
}

} // verus!
