use osoy::link::executable_listing;
use osoy::operator::status::{decimal, is_reported, status};
use osoy::query::exes::{get_first_file, name_matches};
use osoy::query::fsmeta::{FileKind, Node};
use osoy::query::status::{get_branch, get_status, GitAction, GitFile, GitStatus};
use osoy::text::{lines, strip_leading};

fn cs(text: &str) -> Vec<char> {
    text.chars().collect()
}

fn path(text: &str) -> Vec<String> {
    let mut parts = Vec::new();
    if text.starts_with('/') {
        parts.push("/".to_string());
    }
    for name in text.split('/') {
        if !name.is_empty() {
            parts.push(name.to_string());
        }
    }
    parts
}

const LISTING: &str = "On branch feature\nYour branch is ahead of 'origin/feature' by 2 commits.\n  (use \"git push\" to publish your local commits)\n\nChanges to be committed:\n  (use \"git restore --staged <file>...\" to unstage)\n\tnew file:   added.rs\n\tdeleted:    gone.rs\n\nChanges not staged for commit:\n\tmodified:   src/lib.rs\n\trenamed:    a -> b\n\nUntracked files:\n\tnotes.txt\n\t\tdeep.txt\n\n";

#[test]
fn a_listing_is_read() {
    let status = get_status(LISTING);
    assert_eq!(status.branch, Some("feature".to_string()));
    assert_eq!(status.upstream, Some("origin/feature".to_string()));
    assert_eq!((status.commits_ahead, status.commits_behind), (2, 0));
    let files: Vec<(String, GitAction, bool)> = status
        .files
        .iter()
        .map(|file| (file.location.clone(), file.action, file.staged))
        .collect();
    assert_eq!(
        files,
        vec![
            ("added.rs".to_string(), GitAction::New, true),
            ("gone.rs".to_string(), GitAction::Delete, true),
            ("src/lib.rs".to_string(), GitAction::Modify, false),
            ("a -> b".to_string(), GitAction::Rename, false),
            ("notes.txt".to_string(), GitAction::New, false),
            ("deep.txt".to_string(), GitAction::New, false),
        ]
    );
}

#[test]
fn the_upstream_is_read_in_each_form() {
    let behind = get_status("On branch master\nYour branch is behind 'origin/master' by 13 commits, and can be fast-forwarded.\n");
    assert_eq!(behind.upstream, Some("origin/master".to_string()));
    assert_eq!((behind.commits_ahead, behind.commits_behind), (0, 13));
    let diverged = get_status("On branch x\nYour branch and 'up/x' have diverged,\nand have 3 and 41 different commits each, respectively.\n");
    assert_eq!(diverged.upstream, Some("up/x".to_string()));
    assert_eq!((diverged.commits_ahead, diverged.commits_behind), (3, 41));
    let same = get_status("On branch x\nYour branch is up to date with 'origin/x'.\n\nnothing to commit\n");
    assert_eq!(same.upstream, Some("origin/x".to_string()));
    assert_eq!((same.commits_ahead, same.commits_behind), (0, 0));
    assert!(same.files.is_empty());
    let bare = get_status("HEAD detached at 1234567\n\tsomething\n");
    assert_eq!(bare.branch, None);
    assert_eq!(bare.upstream, None);
    assert!(bare.files.is_empty());
    let huge = get_status("Your branch is ahead of 'o/m' by 99999999999 commits.\n");
    assert_eq!(huge.commits_ahead, 0);
    assert_eq!(huge.upstream, Some("o/m".to_string()));
}

#[test]
fn the_branch_stands_behind_the_last_slash() {
    assert_eq!(get_branch("ref: refs/heads/master\n"), Some("master".to_string()));
    assert_eq!(get_branch("ref: refs/heads/feature/x  \r\n"), Some("x".to_string()));
    assert_eq!(get_branch("0123456789abcdef\n"), Some("0123456789abcdef".to_string()));
    assert_eq!(get_branch(""), Some("".to_string()));
}

#[test]
fn lines_end_with_line_feeds() {
    assert_eq!(lines(&cs("a\nb\r\nc")), vec![cs("a"), cs("b"), cs("c")]);
    assert_eq!(lines(&cs("a\n\nb\n")), vec![cs("a"), cs(""), cs("b")]);
    assert_eq!(lines(&cs("")), Vec::<Vec<char>>::new());
    assert_eq!(lines(&cs("\n")), vec![cs("")]);
    assert_eq!(lines(&cs("a\r")), vec![cs("a\r")]);
    assert_eq!(lines(&cs("a\r\r\n")), vec![cs("a\r")]);
    for text in ["a\nb\r\nc", "a\n\nb\n", "", "\n", "a\r", "a\r\r\n", "\r\n\r\n", "x\n\r"] {
        let expected: Vec<Vec<char>> = text.lines().map(cs).collect();
        assert_eq!(lines(&cs(text)), expected);
    }
    assert_eq!(strip_leading(&cs("\t\ta\tb"), '\t'), cs("a\tb"));
    assert_eq!(strip_leading(&cs("\t\t"), '\t'), cs(""));
    assert_eq!(strip_leading(&cs("a"), '\t'), cs("a"));
}

#[test]
fn numbers_in_decimal() {
    assert_eq!(decimal(0), "0");
    assert_eq!(decimal(7), "7");
    assert_eq!(decimal(10), "10");
    assert_eq!(decimal(4096), "4096");
    assert_eq!(decimal(u64::MAX), u64::MAX.to_string());
}

fn changed(location: &str, action: GitAction, staged: bool) -> GitFile {
    GitFile { location: location.to_string(), action, staged }
}

fn info() -> GitStatus {
    GitStatus {
        files: vec![
            changed("a", GitAction::New, true),
            changed("b", GitAction::Modify, false),
            changed("c", GitAction::Modify, true),
            changed("d", GitAction::Delete, false),
        ],
        upstream: Some("origin/master".to_string()),
        commits_ahead: 1,
        commits_behind: 12,
        branch: Some("master".to_string()),
    }
}

#[test]
fn reports_list_or_count_the_files() {
    assert_eq!(
        status("x/y", false, &info(), false, false),
        Some("x/y @master [1:12] (origin/master)\n  +N: a\n  -M: b\n  +M: c\n  -D: d\n".to_string())
    );
    assert_eq!(
        status("x/y", true, &info(), false, true),
        Some("x/y @master [1:12] (origin/master) D1 N1 M2\n".to_string())
    );
    assert_eq!(
        status("x/y", true, &info(), true, true),
        Some(
            "\u{1b}[1mx/y\u{1b}[m \u{1b}[33m@master\u{1b}[m \u{1b}[1m\u{1b}[94m[1:12]\u{1b}[m (origin/master) \u{1b}[31mD1\u{1b}[m \u{1b}[32mN1\u{1b}[m \u{1b}[33mM2\u{1b}[m\n"
                .to_string()
        )
    );
    let renamed = GitStatus {
        files: vec![changed("r", GitAction::Rename, false)],
        upstream: None,
        commits_ahead: 0,
        commits_behind: 0,
        branch: Some("dev".to_string()),
    };
    assert_eq!(
        status("p", false, &renamed, true, false),
        Some("p \u{1b}[93m@dev\u{1b}[m (no remote)\n  -\u{1b}[34mR\u{1b}[m: r\n".to_string())
    );
    let quiet_clean_upstream = GitStatus {
        files: vec![],
        upstream: Some("origin/master".to_string()),
        commits_ahead: 0,
        commits_behind: 0,
        branch: None,
    };
    assert_eq!(status("p", false, &quiet_clean_upstream, true, true), None);
    let other_upstream = GitStatus {
        upstream: Some("fork/master".to_string()),
        ..quiet_clean_upstream
    };
    assert_eq!(
        status("p", false, &other_upstream, true, true),
        Some("p [0:0] (fork/master)\n".to_string())
    );
}

#[test]
fn clean_packages_are_not_reported() {
    let clean = GitStatus {
        files: vec![],
        upstream: Some("origin/master".to_string()),
        commits_ahead: 0,
        commits_behind: 0,
        branch: Some("master".to_string()),
    };
    assert!(!is_reported(&clean));
    assert_eq!(status("p", true, &clean, true, false), None);
    assert!(is_reported(&GitStatus { commits_behind: 1, ..GitStatus::default() }));
    assert!(is_reported(&GitStatus::default()));
    assert!(is_reported(&info()));
}

fn file(at: &str) -> Node {
    Node {
        path: path(at),
        kind: Some(FileKind::File),
        is_file: true,
        mode: Some(0o644),
        target: path(at),
        target_mode: Some(0o644),
    }
}

#[test]
fn the_first_file_with_a_matching_name() {
    let mut dir = file("/r/README");
    dir.is_file = false;
    let entries = vec![file("/r/Cargo.toml"), dir, file("/r/readme.md"), file("/r/README.txt")];
    assert_eq!(get_first_file(&entries, "(?i)^readme"), Some(path("/r/readme.md")));
    assert_eq!(get_first_file(&entries, "^README"), Some(path("/r/README.txt")));
    assert_eq!(get_first_file(&entries, "^LICENSE"), None);
    assert_eq!(get_first_file(&entries, "("), None);
    assert_eq!(get_first_file(&vec![], ".*"), None);
    assert!(name_matches(Some(true)));
    assert!(!name_matches(Some(false)));
    assert!(!name_matches(None));
}

#[test]
fn linked_executables_are_listed_with_their_links() {
    let exes = vec![path("/src/x/a"), path("/src/x/bin/b"), path("/src/x/c")];
    let symlinks = vec![
        (path("/bin/a"), path("/src/x/a")),
        (path("/bin/other"), path("/src/y/a")),
        (path("/bin/c1"), path("/src/x/c")),
        (path("/bin/sub/c2"), path("/src/x/c")),
        (path("/bin/a2"), path("/src/x/a")),
    ];
    assert_eq!(
        executable_listing(&exes, &path("/src/x"), &path("/bin"), &symlinks),
        vec!["a <- a, a2".to_string(), "c <- c1, sub/c2".to_string()]
    );
    assert_eq!(
        executable_listing(&exes, &path("/src/x"), &path("/bin"), &vec![]),
        Vec::<String>::new()
    );
}
