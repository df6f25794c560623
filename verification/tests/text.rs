use osoy::text::{
    append, chars, contains, ends_with, join, matches_at, slice, split, starts_with, string,
    string_of,
};

fn cs(text: &str) -> Vec<char> {
    text.chars().collect()
}

#[test]
fn strings_and_characters() {
    assert_eq!(chars("héllo"), cs("héllo"));
    assert_eq!(chars(""), cs(""));
    assert_eq!(string(&cs("héllo")), "héllo");
    assert_eq!(string_of(&cs("héllo"), 1, 3), "él");
    assert_eq!(slice(&cs("hello"), 2, 5), cs("llo"));
    assert_eq!(slice(&cs("hello"), 2, 2), cs(""));
    let mut head = cs("ab");
    append(&mut head, &cs("cd"));
    assert_eq!(head, cs("abcd"));
}

#[test]
fn searching() {
    assert!(contains(&cs("https://x"), &cs("://")));
    assert!(!contains(&cs("https:/x"), &cs("://")));
    assert!(contains(&cs("abc"), &cs("")));
    assert!(contains(&cs(""), &cs("")));
    assert!(!contains(&cs(""), &cs("a")));
    assert!(contains(&cs("abc"), &cs("c")));
    assert!(matches_at(&cs("abc"), 1, &cs("bc")));
    assert!(!matches_at(&cs("abc"), 2, &cs("bc")));
    assert!(matches_at(&cs("abc"), 3, &cs("")));
    assert!(!matches_at(&cs("abc"), 4, &cs("")));
    assert!(starts_with(&cs("--x"), &cs("--")));
    assert!(!starts_with(&cs("-"), &cs("--")));
    assert!(ends_with(&cs("a.git"), &cs(".git")));
    assert!(!ends_with(&cs("git"), &cs(".git")));
}

#[test]
fn splitting_and_joining() {
    assert_eq!(split(&cs("a/b/c"), '/'), vec![cs("a"), cs("b"), cs("c")]);
    assert_eq!(split(&cs(""), '/'), vec![cs("")]);
    assert_eq!(split(&cs("/"), '/'), vec![cs(""), cs("")]);
    assert_eq!(split(&cs("a//b/"), '/'), vec![cs("a"), cs(""), cs("b"), cs("")]);
    assert_eq!(split(&cs("abc"), '/'), vec![cs("abc")]);
    let parts = vec![cs("a"), cs(""), cs("b")];
    assert_eq!(join(&parts, 0, &cs("/")), cs("a//b"));
    assert_eq!(join(&parts, 1, &cs(", ")), cs(", b"));
    assert_eq!(join(&parts, 2, &cs("/")), cs("b"));
    assert_eq!(join(&parts, 3, &cs("/")), cs(""));
}
