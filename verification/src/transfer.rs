//! The cache of credentials that the transfers of one run share.
//!
//! A remote may ask for credentials several times. The first time a target
//! asks, it is given the secret that was used last, whichever target that was
//! for. When the same target asks again, that secret has been refused: the
//! user is asked for a new one, which replaces the cached secret.

use vstd::prelude::*;
use crate::text::{option_str_view, option_view};

verus! {

/// The kinds of credential that a remote accepts.
#[derive(Clone, Copy, Debug, PartialEq, Eq, Structural)]
pub struct CredentialKinds {
    /// A private key with its passphrase.
    pub ssh_key: bool,
    /// A user name with a password.
    pub user_pass_plaintext: bool,
}

/// The kind of credential that is made for a request.
#[derive(Clone, Copy, Debug, PartialEq, Eq, Structural)]
pub enum CredentialKind {
    SshKey,
    UserPass,
}

/// What the user has to be asked before a request can be answered.
#[derive(Clone, Copy, Debug, PartialEq, Eq, Structural)]
pub struct Prompts {
    /// The user name: the remote offered none.
    pub username: bool,
    /// A new secret: the target has asked before.
    pub secret: bool,
}

/// What the user typed, for each prompt that was shown.
pub struct Answers {
    pub username: Option<String>,
    pub secret: Option<String>,
}

/// A credential to hand to the remote.
#[derive(Debug)]
pub struct Credential {
    pub kind: CredentialKind,
    pub username: String,
    pub secret: String,
}

/// Why no credential was made.
#[derive(Clone, Copy, Debug, PartialEq, Eq, Structural)]
pub enum AuthError {
    /// The remote accepts neither a key nor a password.
    Unsupported,
    /// A prompt that was needed has no answer.
    Unanswered,
}

/// A credential as plain values.
pub struct CredentialView {
    pub kind: CredentialKind,
    pub username: Seq<char>,
    pub secret: Seq<char>,
}

impl View for Credential {
    type V = CredentialView;

    open spec fn view(&self) -> CredentialView {
        CredentialView { kind: self.kind, username: self.username@, secret: self.secret@ }
    }
}

/// What a cache holds.
pub struct CacheView {
    /// The secret that was used last; empty before the first prompt.
    pub secret: Seq<char>,
    /// The targets that have asked for credentials.
    pub tried: Set<Seq<char>>,
}

/// The kind of credential made for a remote that accepts `allowed`: a key
/// where it accepts one, else a password.
pub open spec fn kind_for(allowed: CredentialKinds) -> Option<CredentialKind> {
    if allowed.ssh_key {
        Some(CredentialKind::SshKey)
    } else if allowed.user_pass_plaintext {
        Some(CredentialKind::UserPass)
    } else {
        None
    }
}

impl CacheView {
    /// The prompts that a request of `id` needs.
    pub open spec fn prompts(
        self,
        id: Seq<char>,
        username: Option<Seq<char>>,
        allowed: CredentialKinds,
    ) -> Prompts {
        if kind_for(allowed) is None {
            Prompts { username: false, secret: false }
        } else {
            Prompts { username: username is None, secret: self.tried.contains(id) }
        }
    }

    /// Whether `username` and `secret` answer every prompt that a request of
    /// `id` needs.
    pub open spec fn answered(
        self,
        id: Seq<char>,
        username: Option<Seq<char>>,
        allowed: CredentialKinds,
        typed_username: Option<Seq<char>>,
        typed_secret: Option<Seq<char>>,
    ) -> bool {
        let prompts = self.prompts(id, username, allowed);
        (prompts.username ==> typed_username is Some) && (prompts.secret ==> typed_secret is Some)
    }

    /// The secret handed out to `id`: a new one where the target has asked
    /// before, else the cached one.
    pub open spec fn secret_for(self, id: Seq<char>, typed_secret: Option<Seq<char>>) -> Seq<
        char,
    > {
        if self.tried.contains(id) && typed_secret is Some {
            typed_secret->Some_0
        } else {
            self.secret
        }
    }

    /// The answer to a request of `id`.
    pub open spec fn credentials(
        self,
        id: Seq<char>,
        username: Option<Seq<char>>,
        allowed: CredentialKinds,
        typed_username: Option<Seq<char>>,
        typed_secret: Option<Seq<char>>,
    ) -> Result<CredentialView, AuthError> {
        match kind_for(allowed) {
            None => Err(AuthError::Unsupported),
            Some(kind) => if !self.answered(id, username, allowed, typed_username, typed_secret) {
                Err(AuthError::Unanswered)
            } else {
                Ok(
                    CredentialView {
                        kind,
                        username: match username {
                            Some(name) => name,
                            None => typed_username->Some_0,
                        },
                        secret: self.secret_for(id, typed_secret),
                    },
                )
            },
        }
    }

    /// The cache after a request of `id`: one that was answered marks the
    /// target and keeps the secret it handed out, any other changes nothing.
    pub open spec fn after(
        self,
        id: Seq<char>,
        username: Option<Seq<char>>,
        allowed: CredentialKinds,
        typed_username: Option<Seq<char>>,
        typed_secret: Option<Seq<char>>,
    ) -> CacheView {
        if self.credentials(id, username, allowed, typed_username, typed_secret) is Ok {
            CacheView { secret: self.secret_for(id, typed_secret), tried: self.tried.insert(id) }
        } else {
            self
        }
    }
}

/// The secret used last and the targets that have asked for credentials.
pub struct Cache {
    ssh_password: String,
    ssh_tries: Vec<String>,
}

pub open spec fn credential_result_view(
    result: Result<Credential, AuthError>,
) -> Result<CredentialView, AuthError> {
    match result {
        Ok(credential) => Ok(credential@),
        Err(error) => Err(error),
    }
}

impl View for Cache {
    type V = CacheView;

    closed spec fn view(&self) -> CacheView {
        CacheView {
            secret: self.ssh_password@,
            tried: Set::new(
                |id: Seq<char>|
                    exists|i: int| 0 <= i < self.ssh_tries@.len() && self.ssh_tries@[i]@ == id,
            ),
        }
    }
}

/// A cache with an empty secret that no target has asked yet.
pub fn cache() -> (made: Cache)
    ensures
        made@.secret == Seq::<char>::empty(),
        made@.tried == Set::<Seq<char>>::empty(),
{
    let made = Cache { ssh_password: String::new(), ssh_tries: Vec::new() };
    assert(made@.tried =~= Set::empty());
    made
}

impl Cache {
    /// Whether `id` has asked for credentials before.
    pub fn tried(&self, id: &str) -> (seen: bool)
        ensures
            seen == self@.tried.contains(id@),
    {
        let mut i: usize = 0;
        while i < self.ssh_tries.len()
            invariant
                i <= self.ssh_tries@.len(),
                forall|j: int| 0 <= j < i ==> self.ssh_tries@[j]@ != id@,
            decreases self.ssh_tries@.len() - i,
        {
            if self.ssh_tries[i].as_str().eq(id) {
                return true;
            }
            i = i + 1;
        }
        false
    }

    /// The prompts to show before `credentials` is called for this request.
    pub fn prompts(&self, id: &str, username: Option<&str>, allowed: CredentialKinds) -> (prompts:
        Prompts)
        ensures
            prompts == self@.prompts(id@, option_str_view(username), allowed),
    {
        if !allowed.ssh_key && !allowed.user_pass_plaintext {
            Prompts { username: false, secret: false }
        } else {
            Prompts { username: username.is_none(), secret: self.tried(id) }
        }
    }

    /// Answers a request of the target `id` for credentials.
    ///
    /// `username` is the name that the remote offered and `allowed` the kinds
    /// it accepts; `answers` holds what the user typed at the prompts that
    /// `prompts` named. The user name is the offered one, else the typed one.
    /// The secret is the cached one on the first request of a target, and the
    /// typed one, which then replaces the cached one, on every later request.
    pub fn credentials(
        &mut self,
        id: &str,
        username: Option<&str>,
        allowed: CredentialKinds,
        answers: Answers,
    ) -> (made: Result<Credential, AuthError>)
        ensures
            credential_result_view(made) == old(self)@.credentials(
                id@,
                option_str_view(username),
                allowed,
                option_view(answers.username),
                option_view(answers.secret),
            ),
            final(self)@ == old(self)@.after(
                id@,
                option_str_view(username),
                allowed,
                option_view(answers.username),
                option_view(answers.secret),
            ),
    {
        let kind = if allowed.ssh_key {
            CredentialKind::SshKey
        } else if allowed.user_pass_plaintext {
            CredentialKind::UserPass
        } else {
            return Err(AuthError::Unsupported);
        };
        let seen = self.tried(id);
        let Answers { username: typed_username, secret: typed_secret } = answers;
        let name = match username {
            Some(name) => name.to_owned(),
            None => match typed_username {
                Some(name) => name,
                None => {
                    return Err(AuthError::Unanswered);
                },
            },
        };
        let ghost before = self@;
        if seen {
            match typed_secret {
                Some(secret) => {
                    self.ssh_password = secret;
                },
                None => {
                    return Err(AuthError::Unanswered);
                },
            }
            assert(self@.tried =~= before.tried.insert(id@));
        } else {
            self.ssh_tries.push(id.to_owned());
            assert(self@.tried =~= before.tried.insert(id@)) by {
                let tries = self.ssh_tries@;
                let earlier = old(self).ssh_tries@;
                assert(tries[tries.len() - 1]@ == id@);
                assert forall|other: Seq<char>| before.tried.contains(other) implies self@.tried.contains(
                    other,
                ) by {
                    let i = choose|i: int| 0 <= i < earlier.len() && earlier[i]@ == other;
                    assert(tries[i]@ == other);
                }
                assert forall|other: Seq<char>| self@.tried.contains(other) implies before.tried.insert(
                    id@,
                ).contains(other) by {
                    let i = choose|i: int| 0 <= i < tries.len() && tries[i]@ == other;
                    if i < earlier.len() {
                        assert(earlier[i]@ == other);
                    }
                }
            }
        }
        Ok(Credential { kind, username: name, secret: self.ssh_password.clone() })
    }
}

/// The first request of a target is answered with the cached secret, without
/// a prompt for one.
pub proof fn lemma_first_request_reuses(
    cache: CacheView,
    id: Seq<char>,
    username: Option<Seq<char>>,
    allowed: CredentialKinds,
    typed_username: Option<Seq<char>>,
    typed_secret: Option<Seq<char>>,
)
    requires
        !cache.tried.contains(id),
        kind_for(allowed) is Some,
        username is Some || typed_username is Some,
    ensures
        !cache.prompts(id, username, allowed).secret,
        cache.credentials(id, username, allowed, typed_username, typed_secret) is Ok,
        cache.credentials(id, username, allowed, typed_username, typed_secret)->Ok_0.secret
            == cache.secret,
        cache.after(id, username, allowed, typed_username, typed_secret).secret == cache.secret,
{
}

/// Retry escalation: once a request of a target was answered, every later
/// request of that target needs a prompt for a new secret, whatever was asked
/// of other targets in between, and is answered with the secret typed there.
pub proof fn lemma_later_requests_prompt(
    cache: CacheView,
    id: Seq<char>,
    username: Option<Seq<char>>,
    allowed: CredentialKinds,
    typed_username: Option<Seq<char>>,
    typed_secret: Option<Seq<char>>,
    next_username: Option<Seq<char>>,
    next_allowed: CredentialKinds,
    next_typed_username: Option<Seq<char>>,
    next_typed_secret: Option<Seq<char>>,
)
    requires
        cache.credentials(id, username, allowed, typed_username, typed_secret) is Ok,
        kind_for(next_allowed) is Some,
    ensures
        ({
            let after = cache.after(id, username, allowed, typed_username, typed_secret);
            let answer = after.credentials(
                id,
                next_username,
                next_allowed,
                next_typed_username,
                next_typed_secret,
            );
            &&& after.tried.contains(id)
            &&& after.prompts(id, next_username, next_allowed).secret
            &&& next_typed_secret is None ==> answer == Err::<CredentialView, AuthError>(
                AuthError::Unanswered,
            )
            &&& answer is Ok ==> answer->Ok_0.secret == next_typed_secret->Some_0
            &&& after.after(
                id,
                next_username,
                next_allowed,
                next_typed_username,
                next_typed_secret,
            ).tried.contains(id)
        }),
{
}

/// A request never takes the mark off a target, and marks no target but its
/// own.
pub proof fn lemma_marks_stay(
    cache: CacheView,
    id: Seq<char>,
    username: Option<Seq<char>>,
    allowed: CredentialKinds,
    typed_username: Option<Seq<char>>,
    typed_secret: Option<Seq<char>>,
    other: Seq<char>,
)
    ensures
        ({
            let after = cache.after(id, username, allowed, typed_username, typed_secret);
            &&& cache.tried.contains(other) ==> after.tried.contains(other)
            &&& other != id ==> (after.tried.contains(other) == cache.tried.contains(other))
        }),
{
}

} // verus!
