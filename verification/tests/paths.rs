use osoy::config::{child, home_path, Config, ConfigError};
use osoy::datadir::{data_dirs, DataDirError};
use osoy::paths::{
    can_pop, copy, ends_with, file_name, is_relative, join, parent, pop, same, starts_with,
};

fn path(text: &str) -> Vec<String> {
    let mut parts = Vec::new();
    if text.starts_with('/') {
        parts.push("/".to_string());
    }
    for name in text.split('/') {
        if !name.is_empty() {
            parts.push(name.to_string());
        }
    }
    parts
}

#[test]
fn prefixes_and_suffixes_go_by_components() {
    assert!(starts_with(&path("/a/b/c"), &path("/a/b")));
    assert!(starts_with(&path("/a/b/c"), &path("/a/b/c")));
    assert!(starts_with(&path("/a/b/c"), &path("")));
    assert!(!starts_with(&path("/a/bc"), &path("/a/b")));
    assert!(!starts_with(&path("/a/b"), &path("a/b")));
    assert!(!starts_with(&path("/a"), &path("/a/b")));
    assert!(ends_with(&path("/a/b/c"), &path("b/c")));
    assert!(ends_with(&path("/a/b/c"), &path("")));
    assert!(!ends_with(&path("/a/b/c"), &path("/b/c")));
    assert!(!ends_with(&path("/a/xb/c"), &path("b/c")));
    assert!(!ends_with(&path("c"), &path("b/c")));
    assert!(same(&path("a/b"), &path("a//b")));
    assert!(!same(&path("a/b"), &path("/a/b")));
    assert!(!same(&path("a/b"), &path("a/c")));
    assert_eq!(copy(&path("/a/b")), path("/a/b"));
}

#[test]
fn parents_and_names() {
    assert_eq!(parent(&path("/a/b")), Some(path("/a")));
    assert_eq!(parent(&path("/a")), Some(path("/")));
    assert_eq!(parent(&path("/")), None);
    assert_eq!(parent(&path("")), None);
    assert_eq!(parent(&path("a")), Some(path("")));
    assert!(can_pop(&path("a")));
    assert!(!can_pop(&path("/")));
    let mut some = path("/a/b");
    assert!(pop(&mut some));
    assert_eq!(some, path("/a"));
    assert!(pop(&mut some));
    assert!(!pop(&mut some));
    assert_eq!(some, path("/"));
    assert_eq!(file_name(&path("/a/b.txt")), Some("b.txt".to_string()));
    assert_eq!(file_name(&path("/")), None);
    assert_eq!(file_name(&path("")), None);
    assert_eq!(file_name(&path("a/..")), None);
    assert_eq!(file_name(&path(".")), None);
}

#[test]
fn joining_keeps_paths_from_the_root() {
    assert_eq!(join(&path("/a/b"), &path("c/d")), path("/a/b/c/d"));
    assert_eq!(join(&path("/a/b"), &path("/c")), path("/c"));
    assert_eq!(join(&path("/a/b"), &path("")), path("/a/b"));
    assert_eq!(join(&path(""), &path("c")), path("c"));
    assert!(is_relative(&path("a/b")));
    assert!(is_relative(&path("")));
    assert!(!is_relative(&path("/a")));
    assert_eq!(child(&path("/a"), "b"), path("/a/b"));
}

#[test]
fn home() {
    let osoy_home = path("/home/user/.local/share/osoy");
    let config = Config::from_env(&osoy_home, &path("")).unwrap();
    assert_eq!(config.src, path("/home/user/.local/share/osoy/src"));
    assert_eq!(config.bin, path("/home/user/.local/share/osoy/bin"));

    let home = path("/home/user");
    let config = Config::from_env(&path(""), &home).unwrap();
    assert_eq!(config.bin, path("/home/user/.osoy/bin"));
    assert_eq!(config.src, path("/home/user/.osoy/src"));

    let config = Config::from_env(&osoy_home, &home).unwrap();
    assert_eq!(config.src, path("/home/user/.local/share/osoy/src"));
}

#[test]
fn no_home_no_directories() {
    assert_eq!(Config::from_env(&path(""), &path("")).unwrap_err(), ConfigError::HomeNotSet);
    assert_eq!(home_path(&path(""), &path(".ssh/id_rsa")), Err(ConfigError::HomeNotSet));
    assert_eq!(
        home_path(&path("/home/user"), &path(".ssh/id_rsa")),
        Ok(path("/home/user/.ssh/id_rsa"))
    );
    assert_eq!(ConfigError::HomeNotSet.to_string(), "HOME variable not set");
    let dirs = data_dirs(Some(&path("/home/user"))).unwrap();
    assert_eq!(dirs.packages, path("/home/user/.osoy/packages"));
    assert_eq!(dirs.bin, path("/home/user/.osoy/bin"));
    assert_eq!(data_dirs(None).unwrap_err(), DataDirError::NoHome);
    assert_eq!(DataDirError::NoHome.to_string(), "home directory not found");
    assert_eq!(DataDirError::Packages.to_string(), "could not create packages directory");
    assert_eq!(DataDirError::Bin.to_string(), "could not create bin directory");
}
