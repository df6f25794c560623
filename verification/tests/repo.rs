use osoy::location::Location;
use osoy::repo::{
    is_wanted, iterate, iterate_matching, iterate_matching_exists, unique, Probe, RepoError, Visit,
};
use osoy::util::iter_repos;

fn path(text: &str) -> Vec<String> {
    let mut parts = Vec::new();
    if text.starts_with('/') {
        parts.push("/".to_string());
    }
    for name in text.split('/') {
        if !name.is_empty() {
            parts.push(name.to_string());
        }
    }
    parts
}

fn found() -> Vec<Vec<String>> {
    vec![
        path("/src/github.com/osoy/osoy"),
        path("/src/github.com/rasmusmerzin/recl"),
        path("/src/gitlab.com/rasmusmerzin/archer"),
        path("/src/gitlab.com/other/recl"),
    ]
}

#[test]
fn a_walk_goes_depth_first() {
    let mut walk = iterate(path("/src"));
    assert_eq!(walk.next(), Some(path("/src")));
    assert!(matches!(
        walk.visit(Probe::Directories(vec![path("/src/a"), path("/src/b")])),
        Visit::Descended
    ));
    assert_eq!(walk.next(), Some(path("/src/a")));
    assert!(matches!(
        walk.visit(Probe::Directories(vec![path("/src/a/x"), path("/src/a/y")])),
        Visit::Descended
    ));
    assert_eq!(walk.next(), Some(path("/src/a/x")));
    assert!(matches!(walk.visit(Probe::Repository), Visit::Found(dir) if dir == path("/src/a/x")));
    assert_eq!(walk.next(), Some(path("/src/a/y")));
    assert!(matches!(walk.visit(Probe::Denied), Visit::Skipped));
    assert_eq!(walk.next(), Some(path("/src/b")));
    assert!(matches!(walk.visit(Probe::Missing), Visit::Skipped));
    assert_eq!(walk.next(), None);
    assert!(matches!(walk.visit(Probe::Repository), Visit::Finished));
    assert_eq!(walk.next(), None);
}

#[test]
fn a_walk_fails_where_it_begins() {
    let mut walk = iterate(path("/nowhere"));
    assert!(matches!(walk.visit(Probe::Missing), Visit::Failed(RepoError::NotFound)));
    assert_eq!(walk.next(), None);
    let mut walk = iter_repos(path("/closed"));
    assert_eq!(walk.next(), Some(path("/closed")));
    assert!(matches!(walk.visit(Probe::Denied), Visit::Failed(RepoError::Access)));
    let mut walk = iterate(path("/repo"));
    assert!(matches!(walk.visit(Probe::Repository), Visit::Found(dir) if dir == path("/repo")));
    assert_eq!(walk.next(), None);
    assert_eq!(RepoError::NotFound.to_string(), "no repositories found");
    assert_eq!(RepoError::Access.to_string(), "could not access directory");
}

#[test]
fn targets_select_repositories() {
    let recl = Location::from_str("recl").unwrap();
    let archer = Location::from_str("rasmusmerzin/archer").unwrap();
    assert_eq!(iterate_matching(&found(), &vec![], false), found());
    assert_eq!(
        iterate_matching(&found(), &vec![recl.clone(), archer.clone()], false),
        vec![
            path("/src/github.com/rasmusmerzin/recl"),
            path("/src/gitlab.com/rasmusmerzin/archer"),
            path("/src/gitlab.com/other/recl"),
        ]
    );
    let pattern = Location::from_str("git(hub|lab).com/rasmus.*/.*").unwrap();
    assert_eq!(
        iterate_matching(&found(), &vec![pattern.clone()], true),
        vec![
            path("/src/github.com/rasmusmerzin/recl"),
            path("/src/gitlab.com/rasmusmerzin/archer"),
        ]
    );
    assert_eq!(iterate_matching(&found(), &vec![pattern], false), Vec::<Vec<String>>::new());
    assert!(is_wanted(&vec![], true, &path("/anything")));
    assert!(is_wanted(&vec![recl.clone()], false, &path("/x/recl")));
    assert!(!is_wanted(&vec![recl], false, &path("/x/recl2")));
}

#[test]
fn nothing_matching_is_an_error() {
    let missing = Location::from_str("nothing").unwrap();
    assert_eq!(
        iterate_matching_exists(&found(), &vec![missing.clone()], false),
        Err(RepoError::NoMatching)
    );
    assert_eq!(iterate_matching_exists(&vec![], &vec![], false), Err(RepoError::NoMatching));
    assert_eq!(iterate_matching_exists(&found(), &vec![], false), Ok(found()));
    assert_eq!(unique(&found(), missing, false), Err(RepoError::NoMatch));
    assert_eq!(
        unique(&found(), Location::from_str("recl").unwrap(), false),
        Err(RepoError::Multiple)
    );
    assert_eq!(
        unique(&found(), Location::from_str("osoy").unwrap(), false),
        Ok(path("/src/github.com/osoy/osoy"))
    );
    assert_eq!(
        unique(&found(), Location::from_str("o.*y").unwrap(), true),
        Ok(path("/src/github.com/osoy/osoy"))
    );
    assert_eq!(RepoError::NoMatching.to_string(), "no matching entities found");
    assert_eq!(RepoError::NoMatch.to_string(), "no entities match query");
    assert_eq!(RepoError::Multiple.to_string(), "multiple entities match query");
}
