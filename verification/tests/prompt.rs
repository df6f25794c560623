use osoy::prompt::Answer;

#[test]
fn one_flag_is_an_answer() {
    assert_eq!(Answer::new(false, false, false), Ok(Answer::Undefined));
    assert_eq!(Answer::new(true, false, false), Ok(Answer::Force));
    assert_eq!(Answer::new(false, true, false), Ok(Answer::Default));
    assert_eq!(Answer::new(false, false, true), Ok(Answer::Deny));
}

#[test]
fn several_flags_are_a_conflict() {
    assert_eq!(
        Answer::new(true, true, false),
        Err("answer conflict: force, default".to_string())
    );
    assert_eq!(
        Answer::new(true, false, true),
        Err("answer conflict: force, deny".to_string())
    );
    assert_eq!(
        Answer::new(false, true, true),
        Err("answer conflict: default, deny".to_string())
    );
    assert_eq!(
        Answer::new(true, true, true),
        Err("answer conflict: force, default, deny".to_string())
    );
}
