use osoy::link::{deref_rec, executables, iterate, link_path, points_into, LinkError};
use osoy::query::exes::{
    get_exes, get_links_to, get_node_target, get_orphan_links, get_repo_exes,
    resolve_relative_link,
};
use osoy::query::fsmeta::{is_exe, is_symlink, FileKind, Node};
use osoy::query::method::{get_build_method, BuildMethod};
use osoy::query::status::{GitAction, GitStatus, GitStatusSection};

fn path(text: &str) -> Vec<String> {
    let mut parts = Vec::new();
    if text.starts_with('/') {
        parts.push("/".to_string());
    }
    for name in text.split('/') {
        if !name.is_empty() {
            parts.push(name.to_string());
        }
    }
    parts
}

fn file(at: &str, mode: u32) -> Node {
    Node {
        path: path(at),
        kind: Some(FileKind::File),
        is_file: true,
        mode: Some(mode),
        target: path(at),
        target_mode: Some(mode),
    }
}

fn link(at: &str, to: &str, target_mode: Option<u32>) -> Node {
    Node {
        path: path(at),
        kind: Some(FileKind::Symlink),
        is_file: target_mode.is_some(),
        mode: target_mode,
        target: path(to),
        target_mode,
    }
}

#[test]
fn links_into_packages_are_kept() {
    let links = vec![
        (path("/bin/a"), path("/src/x/y/a")),
        (path("/bin/b"), path("/usr/bin/b")),
        (path("/bin/c"), path("/src/x/z/c")),
        (path("/bin/d"), path("/src/x/yy/d")),
    ];
    let repos = vec![path("/src/x/y"), path("/src/x/z")];
    assert_eq!(
        iterate(&links, &repos),
        vec![
            (path("/bin/a"), path("/src/x/y/a")),
            (path("/bin/c"), path("/src/x/z/c")),
        ]
    );
    assert_eq!(iterate(&links, &vec![]), vec![]);
    assert!(points_into(&path("/src/x/y"), &repos));
    assert!(!points_into(&path("/src/x"), &repos));
}

#[test]
fn a_link_has_the_name_of_its_executable() {
    assert_eq!(link_path(&path("/bin"), &path("/src/x/tool")), Ok(path("/bin/tool")));
    assert_eq!(link_path(&path("/bin"), &path("/")), Err(LinkError::NoFileName));
    assert_eq!(link_path(&path("/bin"), &path("a/..")), Err(LinkError::NoFileName));
    assert_eq!(LinkError::NoFileName.to_string(), "no file name found");
}

#[test]
fn links_are_followed_from_their_directory() {
    assert_eq!(deref_rec(&path("/bin/a"), None), None);
    assert_eq!(deref_rec(&path("/bin/a"), Some(&path("/src/a"))), Some(path("/src/a")));
    assert_eq!(deref_rec(&path("/bin/a"), Some(&path("../src/a"))), Some(path("/bin/../src/a")));
    assert_eq!(deref_rec(&path("a"), Some(&path("b"))), Some(path("b")));
    assert_eq!(resolve_relative_link(&path("/bin/a"), &path("b")), path("/bin/b"));
    assert_eq!(resolve_relative_link(&path("/bin/a"), &path("/b")), path("/b"));
    assert_eq!(resolve_relative_link(&path("/"), &path("b")), path("b"));
    assert_eq!(get_node_target(&path("/bin/a"), None), None);
    assert_eq!(get_node_target(&path("/bin/a"), Some(&path("a"))), None);
    assert_eq!(get_node_target(&path("/bin/a"), Some(&path("b"))), Some(path("/bin/b")));
}

#[test]
fn executables_are_files_with_the_owner_bit() {
    assert!(is_exe(Some(0o755)));
    assert!(is_exe(Some(0o100)));
    assert!(!is_exe(Some(0o644)));
    assert!(!is_exe(Some(0o011)));
    assert!(!is_exe(None));
    assert!(is_symlink(Some(FileKind::Symlink)));
    assert!(!is_symlink(Some(FileKind::File)));
    assert!(!is_symlink(Some(FileKind::Directory)));
    assert!(!is_symlink(Some(FileKind::Other)));
    assert!(!is_symlink(None));
    let dir = Node {
        path: path("/r/dir"),
        kind: Some(FileKind::Directory),
        is_file: false,
        mode: Some(0o755),
        target: path("/r/dir"),
        target_mode: Some(0o755),
    };
    let entries = vec![file("/r/a", 0o755), file("/r/b", 0o644), dir, file("/r/c", 0o700)];
    assert_eq!(get_exes(&entries), vec![path("/r/a"), path("/r/c")]);
    assert_eq!(executables(&entries), vec![path("/r/a"), path("/r/c")]);
    assert_eq!(
        get_repo_exes(&entries, &vec![file("/r/target/release/t", 0o755)], &vec![file("/r/bin/x", 0o644)]),
        vec![path("/r/a"), path("/r/c"), path("/r/target/release/t")]
    );
    assert_eq!(get_exes(&vec![]), Vec::<Vec<String>>::new());
}

#[test]
fn links_to_a_target_and_orphans() {
    let entries = vec![
        link("/bin/a", "/src/x/a", Some(0o755)),
        link("/bin/b", "/src/x/b", None),
        file("/bin/plain", 0o644),
        link("/bin/a2", "/src/x/a", Some(0o755)),
        link("/bin/c", "/src/x/c", Some(0o644)),
    ];
    assert_eq!(get_links_to(&path("/src/x/a"), &entries), vec![path("/bin/a"), path("/bin/a2")]);
    assert_eq!(get_links_to(&path("/src/x/zz"), &entries), Vec::<Vec<String>>::new());
    assert_eq!(get_orphan_links(&entries), vec![path("/bin/b"), path("/bin/c")]);
}

#[test]
fn small_rules() {
    assert_eq!(get_build_method(true, true), Some(BuildMethod::Make));
    assert_eq!(get_build_method(true, false), Some(BuildMethod::Make));
    assert_eq!(get_build_method(false, true), Some(BuildMethod::Cargo));
    assert_eq!(get_build_method(false, false), None);
    assert_eq!(GitAction::from_letter("d"), GitAction::Delete);
    assert_eq!(GitAction::from_letter("n"), GitAction::New);
    assert_eq!(GitAction::from_letter("r"), GitAction::Rename);
    assert_eq!(GitAction::from_letter("m"), GitAction::Modify);
    assert_eq!(GitAction::from_letter(""), GitAction::Modify);
    assert_eq!(GitStatusSection::heading("Changes to be committed:"), Some(GitStatusSection::Staged));
    assert_eq!(
        GitStatusSection::heading("Changes not staged for commit:"),
        Some(GitStatusSection::Unstaged)
    );
    assert_eq!(GitStatusSection::heading("Untracked files:"), Some(GitStatusSection::Untracked));
    assert_eq!(GitStatusSection::heading("On branch main"), None);
    let status = GitStatus::default();
    assert!(status.files.is_empty() && status.upstream.is_none() && status.branch.is_none());
    assert_eq!((status.commits_ahead, status.commits_behind), (0, 0));
}

#[test]
fn links_to_nothing_are_orphans() {
    let entries = vec![
        link("/bin/a", "/src/x/a", Some(0o755)),
        link("/bin/b", "/src/x/b", None),
        file("/bin/plain", 0o644),
        link("/bin/c", "/src/x/c", Some(0o644)),
    ];
    assert_eq!(osoy::operator::query::get_orphan_links(&entries), vec![path("/bin/b")]);
}
