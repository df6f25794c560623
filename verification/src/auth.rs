//! Credentials that are asked for anew at every request.

use vstd::prelude::*;
use crate::text::{option_str_view, option_view};
use crate::transfer::{
    kind_for, Answers, AuthError, Credential, CredentialKind, CredentialKinds, CredentialView,
    Prompts,
};

verus! {

/// The prompts that a request needs: always one for the secret; one for the
/// user name unless a key is asked for and the remote offered a name.
pub open spec fn prompts_spec(username: Option<Seq<char>>, allowed: CredentialKinds) -> Prompts {
    match kind_for(allowed) {
        None => Prompts { username: false, secret: false },
        Some(CredentialKind::SshKey) => Prompts { username: username is None, secret: true },
        Some(CredentialKind::UserPass) => Prompts { username: true, secret: true },
    }
}

/// The answer to a request: the credential of the kind that the remote
/// accepts, made of what the user typed, and of the offered user name where a
/// key is asked for and a name was offered.
pub open spec fn credentials_spec(
    username: Option<Seq<char>>,
    allowed: CredentialKinds,
    typed_username: Option<Seq<char>>,
    typed_secret: Option<Seq<char>>,
) -> Result<CredentialView, AuthError> {
    match kind_for(allowed) {
        None => Err(AuthError::Unsupported),
        Some(kind) => {
            let name = if kind == CredentialKind::SshKey && username is Some {
                username
            } else {
                typed_username
            };
            match (name, typed_secret) {
                (Some(name), Some(secret)) => Ok(CredentialView { kind, username: name, secret }),
                _ => Err(AuthError::Unanswered),
            }
        },
    }
}

/// The prompts to show before `credentials` is called for this request.
pub fn prompts(username: Option<&str>, allowed: CredentialKinds) -> (prompts: Prompts)
    ensures
        prompts == prompts_spec(option_str_view(username), allowed),
{
    if allowed.ssh_key {
        Prompts { username: username.is_none(), secret: true }
    } else if allowed.user_pass_plaintext {
        Prompts { username: true, secret: true }
    } else {
        Prompts { username: false, secret: false }
    }
}

/// Answers a request for credentials with what the user typed at the prompts
/// that `prompts` named.
pub fn credentials(username: Option<&str>, allowed: CredentialKinds, answers: Answers) -> (made:
    Result<Credential, AuthError>)
    ensures
        crate::transfer::credential_result_view(made) == credentials_spec(
            option_str_view(username),
            allowed,
            option_view(answers.username),
            option_view(answers.secret),
        ),
{
    let kind = if allowed.ssh_key {
        CredentialKind::SshKey
    } else if allowed.user_pass_plaintext {
        CredentialKind::UserPass
    } else {
        return Err(AuthError::Unsupported);
    };
    let Answers { username: typed_username, secret: typed_secret } = answers;
    let name = match (allowed.ssh_key, username) {
        (true, Some(name)) => Some(name.to_owned()),
        _ => typed_username,
    };
    match (name, typed_secret) {
        (Some(name), Some(secret)) => Ok(Credential { kind, username: name, secret }),
        _ => Err(AuthError::Unanswered),
    }
}

} // verus!
