use osoy::auth;
use osoy::transfer::{
    cache, Answers, AuthError, CredentialKind, CredentialKinds, Prompts,
};

fn ssh() -> CredentialKinds {
    CredentialKinds { ssh_key: true, user_pass_plaintext: false }
}

fn password() -> CredentialKinds {
    CredentialKinds { ssh_key: false, user_pass_plaintext: true }
}

fn nothing() -> CredentialKinds {
    CredentialKinds { ssh_key: false, user_pass_plaintext: false }
}

fn typed(username: Option<&str>, secret: Option<&str>) -> Answers {
    Answers {
        username: username.map(|s| s.to_string()),
        secret: secret.map(|s| s.to_string()),
    }
}

#[test]
fn second_request_asks_for_a_new_secret() {
    let mut cache = cache();
    assert_eq!(
        cache.prompts("a", Some("git"), ssh()),
        Prompts { username: false, secret: false }
    );
    let first = cache.credentials("a", Some("git"), ssh(), typed(None, None)).unwrap();
    assert_eq!(first.kind, CredentialKind::SshKey);
    assert_eq!(first.username, "git");
    assert_eq!(first.secret, "");
    assert!(cache.tried("a"));
    assert_eq!(
        cache.prompts("a", Some("git"), ssh()),
        Prompts { username: false, secret: true }
    );
    let second = cache.credentials("a", Some("git"), ssh(), typed(None, Some("one"))).unwrap();
    assert_eq!(second.secret, "one");
    assert_eq!(
        cache.prompts("a", Some("git"), ssh()),
        Prompts { username: false, secret: true }
    );
    let third = cache.credentials("a", Some("git"), ssh(), typed(None, Some("two"))).unwrap();
    assert_eq!(third.secret, "two");
}

#[test]
fn a_new_target_is_given_the_last_secret() {
    let mut cache = cache();
    cache.credentials("a", Some("git"), ssh(), typed(None, None)).unwrap();
    cache.credentials("a", Some("git"), ssh(), typed(None, Some("one"))).unwrap();
    assert!(!cache.tried("b"));
    assert_eq!(
        cache.prompts("b", None, password()),
        Prompts { username: true, secret: false }
    );
    let other = cache
        .credentials("b", None, password(), typed(Some("me"), Some("ignored")))
        .unwrap();
    assert_eq!(other.kind, CredentialKind::UserPass);
    assert_eq!(other.username, "me");
    assert_eq!(other.secret, "one");
    assert!(cache.tried("b"));
    assert!(cache.tried("a"));
}

#[test]
fn a_request_without_answer_changes_nothing() {
    let mut cache = cache();
    assert_eq!(
        cache.credentials("a", None, ssh(), typed(None, None)).unwrap_err(),
        AuthError::Unanswered
    );
    assert!(!cache.tried("a"));
    cache.credentials("a", None, ssh(), typed(Some("me"), None)).unwrap();
    assert_eq!(
        cache.credentials("a", None, ssh(), typed(Some("me"), None)).unwrap_err(),
        AuthError::Unanswered
    );
    assert_eq!(
        cache.credentials("a", None, ssh(), typed(None, Some("s"))).unwrap_err(),
        AuthError::Unanswered
    );
    let again = cache.credentials("a", Some("you"), ssh(), typed(Some("me"), Some("s"))).unwrap();
    assert_eq!(again.username, "you");
    assert_eq!(again.secret, "s");
}

#[test]
fn unknown_kinds_are_told_apart() {
    let mut cache = cache();
    assert_eq!(
        cache.prompts("a", None, nothing()),
        Prompts { username: false, secret: false }
    );
    assert_eq!(
        cache.credentials("a", Some("git"), nothing(), typed(Some("me"), Some("s"))).unwrap_err(),
        AuthError::Unsupported
    );
    assert!(!cache.tried("a"));
    let both = CredentialKinds { ssh_key: true, user_pass_plaintext: true };
    assert_eq!(
        cache.credentials("a", Some("git"), both, typed(None, None)).unwrap().kind,
        CredentialKind::SshKey
    );
}

#[test]
fn without_a_cache_every_request_asks() {
    assert_eq!(
        auth::prompts(Some("git"), ssh()),
        Prompts { username: false, secret: true }
    );
    assert_eq!(auth::prompts(None, ssh()), Prompts { username: true, secret: true });
    assert_eq!(
        auth::prompts(Some("git"), password()),
        Prompts { username: true, secret: true }
    );
    assert_eq!(
        auth::prompts(Some("git"), nothing()),
        Prompts { username: false, secret: false }
    );
    let key = auth::credentials(Some("git"), ssh(), typed(Some("me"), Some("s"))).unwrap();
    assert_eq!((key.kind, key.username.as_str(), key.secret.as_str()), (CredentialKind::SshKey, "git", "s"));
    let pass = auth::credentials(Some("git"), password(), typed(Some("me"), Some("s"))).unwrap();
    assert_eq!((pass.kind, pass.username.as_str(), pass.secret.as_str()), (CredentialKind::UserPass, "me", "s"));
    assert_eq!(
        auth::credentials(Some("git"), password(), typed(None, Some("s"))).unwrap_err(),
        AuthError::Unanswered
    );
    assert_eq!(
        auth::credentials(Some("git"), ssh(), typed(None, None)).unwrap_err(),
        AuthError::Unanswered
    );
    assert_eq!(
        auth::credentials(None, nothing(), typed(Some("me"), Some("s"))).unwrap_err(),
        AuthError::Unsupported
    );
}
