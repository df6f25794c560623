use osoy::location::{Location, ParseLocationError, Protocol};

fn check(query: &str, url: &str, id: &str, display: &str) {
    let location = Location::from_str(query).unwrap();
    assert_eq!(location.url(), url);
    assert_eq!(location.id(), id);
    assert_eq!(location.to_string(), display);
}

fn path(text: &str) -> Vec<String> {
    let mut parts = Vec::new();
    if text.starts_with('/') {
        parts.push("/".to_string());
    }
    for name in text.split('/') {
        if !name.is_empty() {
            parts.push(name.to_string());
        }
    }
    parts
}

#[test]
fn full() {
    check(
        "http://github.com/rasmusmerzin/hue",
        "http://github.com/rasmusmerzin/hue",
        "github.com/rasmusmerzin/hue",
        "github.com/rasmusmerzin/hue",
    );
    check(
        "git@gitlab.com:rasmusmerzin/archer",
        "git@gitlab.com:rasmusmerzin/archer",
        "gitlab.com/rasmusmerzin/archer",
        "gitlab.com/rasmusmerzin/archer",
    );
    check(
        "gituser@gitlab.com:rasmusmerzin/fr3",
        "gituser@gitlab.com:rasmusmerzin/fr3",
        "gitlab.com/rasmusmerzin/fr3",
        "gitlab.com/rasmusmerzin/fr3",
    );
}

#[test]
fn partial() {
    check(
        "gitlab.com:rasmusmerzin/xhueloop",
        "git@gitlab.com:rasmusmerzin/xhueloop",
        "gitlab.com/rasmusmerzin/xhueloop",
        "gitlab.com/rasmusmerzin/xhueloop",
    );
    check(
        "gitlab.com/rasmusmerzin/gol-java",
        "https://gitlab.com/rasmusmerzin/gol-java",
        "gitlab.com/rasmusmerzin/gol-java",
        "gitlab.com/rasmusmerzin/gol-java",
    );
    check(
        "rasmusmerzin/recl",
        "https://github.com/rasmusmerzin/recl",
        "github.com/rasmusmerzin/recl",
        "rasmusmerzin/recl",
    );
    check(
        "osoy",
        "https://github.com/osoy/osoy",
        "github.com/osoy/osoy",
        "osoy",
    );
}

#[test]
fn error() {
    assert!(Location::from_str("").is_err());
}

#[test]
fn error_has_its_words() {
    assert_eq!(ParseLocationError {}.to_string(), "invalid location");
    assert_eq!(Location::about(), "<[[domain/]author/]package> or url");
}

#[test]
fn new_keeps_protocol_and_names() {
    let location = Location::new(
        Some(Protocol::Other("https".to_string())),
        vec!["example.org".to_string(), "a".to_string(), "b".to_string()],
    );
    assert_eq!(location.url(), "https://example.org/a/b");
    assert_eq!(location.id(), "example.org/a/b");
    let bare = Location::new(Some(Protocol::Ssh("git".to_string())), vec![]);
    assert_eq!(bare.url(), "");
    assert_eq!(bare.id(), "");
}

#[test]
fn parse_takes_the_groups_it_is_given() {
    let found = Some(Some(vec![
        Some("ftp://".to_string()),
        Some("ftp".to_string()),
    ]));
    let location = Location::parse(
        "ftp://host/x",
        found,
        Some("host/x".to_string()),
        Some(None),
        Some("ftp://host/x".to_string()),
    )
    .unwrap();
    assert_eq!(location.url(), "ftp://host/x");
    assert!(Location::parse("x", None, None, None, None).is_err());
    let ssh = Location::parse(
        "host:x",
        Some(None),
        Some("host:x".to_string()),
        Some(Some(vec![Some("host:".to_string()), None, None, Some("host".to_string())])),
        Some("host/x".to_string()),
    )
    .unwrap();
    assert_eq!(ssh.url(), "git@host:x");
}

#[test]
fn matches_the_end_of_a_path() {
    let location = Location::from_str("rasmusmerzin/recl").unwrap();
    assert!(location.matches(&path("/home/u/.osoy/src/github.com/rasmusmerzin/recl")));
    assert!(!location.matches(&path("/home/u/.osoy/src/github.com/rasmusmerzin/hue")));
    assert!(!location.matches(&path("/home/u/.osoy/src/github.com/other/recl")));
    assert!(!location.matches(&path("recl")));
    let any_author = Location::from_str("github.com//osoy").unwrap();
    assert!(any_author.matches(&path("/src/github.com/osoy/osoy")));
    assert!(any_author.matches(&path("/src/github.com/rasmusmerzin/osoy")));
    assert!(!any_author.matches(&path("/src/gitlab.com/osoy/osoy")));
}

#[test]
fn matches_by_patterns() {
    let location = Location::from_str("rasmus.*/re.l").unwrap();
    assert!(location.matches_re(&path("/src/github.com/rasmusmerzin/recl")));
    assert!(!location.matches_re(&path("/src/github.com/rasmusmerzin/recll")));
    assert!(!location.matches_re(&path("/src/github.com/erasmus/recl")));
    let star = Location::from_str("*/osoy").unwrap();
    assert!(star.matches_re(&path("/src/github.com/anyone/osoy")));
    let broken = Location::from_str("(").unwrap();
    assert!(!broken.matches_re(&path("/src/github.com/anyone/(")));
    let wild = Location::from_str("github.com//osoy").unwrap();
    assert!(wild.matches_re(&path("/src/github.com/anyone/osoy")));
}
