use osoy::args::parse_args;

fn list(items: &[&str]) -> Vec<String> {
    items.iter().map(|s| s.to_string()).collect()
}

fn flags() -> Vec<Vec<String>> {
    vec![list(&["color", "c"]), list(&["force", "f"]), list(&["help", "h"])]
}

fn opts() -> Vec<Vec<String>> {
    vec![list(&["option", "o"])]
}

#[test]
fn words_flags_and_options() {
    let parsed = parse_args(
        &list(&["clone", "-cf", "osoy", "--option", "a,b", "--help", "x"]),
        &flags(),
        &opts(),
    )
    .unwrap();
    assert_eq!(parsed.words, list(&["clone", "osoy", "x"]));
    assert_eq!(parsed.flags, list(&["color", "force", "help"]));
    assert_eq!(parsed.options, vec![("option".to_string(), list(&["a", "b"]))]);
}

#[test]
fn a_later_value_replaces_an_earlier() {
    let parsed = parse_args(
        &list(&["-o", "a", "--option", "b,,c", "-c", "-c"]),
        &flags(),
        &opts(),
    )
    .unwrap();
    assert_eq!(parsed.options, vec![("option".to_string(), list(&["b", "", "c"]))]);
    assert_eq!(parsed.flags, list(&["color", "color"]));
    assert!(parsed.words.is_empty());
}

#[test]
fn a_value_may_look_like_a_flag() {
    let parsed = parse_args(&list(&["-co", "--help", "-"]), &flags(), &opts()).unwrap();
    assert_eq!(parsed.flags, list(&["color"]));
    assert_eq!(parsed.options, vec![("option".to_string(), list(&["--help"]))]);
    assert!(parsed.words.is_empty());
}

#[test]
fn unknown_names_are_refused() {
    assert_eq!(
        parse_args(&list(&["--colour"]), &flags(), &opts()).unwrap_err(),
        "unknown flag '--colour'"
    );
    assert_eq!(
        parse_args(&list(&["-cx"]), &flags(), &opts()).unwrap_err(),
        "unknown flag '-x'"
    );
    assert_eq!(
        parse_args(&list(&["--"]), &flags(), &opts()).unwrap_err(),
        "unknown flag '--'"
    );
}

#[test]
fn an_option_needs_its_value() {
    assert_eq!(
        parse_args(&list(&["a", "-o"]), &flags(), &opts()).unwrap_err(),
        "option 'option' requires a value"
    );
    assert_eq!(
        parse_args(&list(&["--option"]), &flags(), &opts()).unwrap_err(),
        "option 'option' requires a value"
    );
}

#[test]
fn the_last_group_with_a_name_wins() {
    let twice = vec![list(&["first", "x"]), list(&["second", "x"]), vec![]];
    let parsed = parse_args(&list(&["-x"]), &twice, &vec![]).unwrap();
    assert_eq!(parsed.flags, list(&["second"]));
    let both = parse_args(&list(&["-x", "v"]), &twice, &vec![list(&["opt", "x"])]).unwrap();
    assert!(both.flags.is_empty());
    assert_eq!(both.options, vec![("opt".to_string(), list(&["v"]))]);
    let empty = parse_args(&vec![], &flags(), &opts()).unwrap();
    assert!(empty.words.is_empty() && empty.flags.is_empty() && empty.options.is_empty());
}
