use osoy::query::{
    get_repos, path_matches_query, query_names, query_pattern, repo_id_from_url, repo_id_of,
    strip_git_suffix, url_from_query,
};

#[test]
fn query_to_url() {
    let url = url_from_query("osoy");
    assert_eq!(url, Some("https://github.com/osoy/osoy.git".to_owned()),);
    let url = url_from_query("rasmusmerzin/colo");
    assert_eq!(
        url,
        Some("https://github.com/rasmusmerzin/colo.git".to_owned())
    );

    let url = url_from_query("https://github.com/osoy/osoy");
    assert_eq!(url, Some("https://github.com/osoy/osoy".to_owned()));
    let url = url_from_query("git@gitlab.com:osoy/osoy");
    assert_eq!(url, Some("git@gitlab.com:osoy/osoy".to_owned()));

    let url = url_from_query("");
    assert_eq!(url, None);
    let url = url_from_query("github.com//osoy");
    assert_eq!(url, None);
}

#[test]
fn url_to_repo_id() {
    let repo_id = repo_id_from_url("https://github.com/osoy/osoy.git");
    assert_eq!(repo_id, Some("github.com/osoy/osoy".to_owned()));
    let repo_id = repo_id_from_url("git@gitlab.com:osoy/osoy.git");
    assert_eq!(repo_id, Some("gitlab.com/osoy/osoy".to_owned()));

    let repo_id = repo_id_from_url("git@gitlab.com:osoy/osoy");
    assert_eq!(repo_id, Some("gitlab.com/osoy/osoy".to_owned()));

    let repo_id = repo_id_from_url("gitlab.com/osoy/osoy");
    assert_eq!(repo_id, None);
    let repo_id = repo_id_from_url("");
    assert_eq!(repo_id, None);
}

#[test]
fn query_with_domain_keeps_it() {
    assert_eq!(
        url_from_query("gitlab.com/a/b"),
        Some("https://gitlab.com/a/b.git".to_owned())
    );
    assert_eq!(
        url_from_query("x/gitlab.com/a/b"),
        Some("https://gitlab.com/a/b.git".to_owned())
    );
    assert_eq!(url_from_query("a/"), None);
    assert_eq!(url_from_query("/b"), None);
}

#[test]
fn repo_id_is_lowercase_without_suffix() {
    assert_eq!(repo_id_of("GitHub.com/Osoy/Osoy.git"), "github.com/osoy/osoy");
    assert_eq!(repo_id_of("GitHub.com/Osoy/Osoy.GIT"), "github.com/osoy/osoy");
    assert_eq!(strip_git_suffix("a.git"), "a");
    assert_eq!(strip_git_suffix(".git"), "");
    assert_eq!(strip_git_suffix("a.git.x"), "a.git.x");
    assert_eq!(strip_git_suffix("git"), "git");
    assert_eq!(
        repo_id_from_url("HTTPS://GitHub.com/Osoy/Osoy"),
        Some("github.com/osoy/osoy".to_owned())
    );
}

fn path(text: &str) -> Vec<String> {
    text.split('/').filter(|name| !name.is_empty()).map(|name| name.to_string()).collect()
}

fn list(items: &[&str]) -> Vec<String> {
    items.iter().map(|s| s.to_string()).collect()
}

#[test]
fn queries_match_the_end_of_a_path() {
    assert!(path_matches_query(&path("github.com/osoy/osoy"), &vec![]));
    assert!(path_matches_query(&path("github.com/osoy/osoy"), &list(&["osoy"])));
    assert!(path_matches_query(&path("github.com/osoy/osoy"), &list(&["x", "osoy/osoy"])));
    assert!(!path_matches_query(&path("github.com/osoy/osoy"), &list(&["soy"])));
    assert!(path_matches_query(&path("github.com/osoy/osoy"), &list(&[".soy"])));
    assert!(path_matches_query(&path("github.com/osoy/osoy"), &list(&["osoy/.*"])));
    assert!(path_matches_query(&path("github.com/osoy/osoy"), &list(&["github.com/.*/.*"])));
    assert!(!path_matches_query(&path("github.com/osoy/osoy"), &list(&["github.com/.*"])));
    assert!(!path_matches_query(&path("github.com/osoy/osoy"), &list(&["gitlab.com/.*/.*"])));
    assert!(!path_matches_query(&path("github.com/osoy/osoy"), &list(&["(", "y"])));
    assert_eq!(query_names("a//b/"), list(&["a", "b"]));
    assert_eq!(query_names(""), Vec::<String>::new());
    assert_eq!(query_pattern("a.b/c"), "/a[^/]b/c$");
    assert_eq!(query_pattern(""), "/$");
}

#[test]
fn repositories_are_asked_for_below_the_packages() {
    let found = vec![
        list(&["/", "p", "github.com", "osoy", "osoy"]),
        list(&["/", "elsewhere", "osoy"]),
        list(&["/", "p", "gitlab.com", "a", "b"]),
    ];
    let prefix = list(&["/", "p"]);
    assert_eq!(
        get_repos(&found, &prefix, &vec![]),
        vec![found[0].clone(), found[2].clone()]
    );
    assert_eq!(get_repos(&found, &prefix, &list(&["osoy"])), vec![found[0].clone()]);
    assert_eq!(get_repos(&found, &prefix, &list(&["a/b", "zz"])), vec![found[2].clone()]);
    assert_eq!(get_repos(&found, &prefix, &list(&["zz"])), Vec::<Vec<String>>::new());
}

#[test]
fn the_first_command_line_reads_queries_plainly() {
    assert_eq!(
        osoy::operator::query::url_from_query("osoy"),
        Some("https://github.com/osoy/osoy".to_owned())
    );
    assert_eq!(
        osoy::operator::query::url_from_query("gitlab.com/a/b"),
        Some("https://gitlab.com/a/b".to_owned())
    );
    assert_eq!(
        osoy::operator::query::url_from_query("ssh://x/y"),
        Some("ssh://x/y".to_owned())
    );
    assert_eq!(
        osoy::operator::query::url_from_query("git@host:a/b"),
        Some("https://github.com/git@host:a/b".to_owned())
    );
    assert_eq!(
        osoy::operator::query::url_from_query(""),
        Some("https://github.com//".to_owned())
    );
}
