use gh_web_dash::auth::choose_token;

#[test]
fn prefers_gh_token() {
    let t = choose_token(Some("gh-token".into()), Some("env-token".into())).unwrap();
    assert_eq!(t, "gh-token");
}

#[test]
fn falls_back_to_env() {
    let t = choose_token(None, Some("env-token".into())).unwrap();
    assert_eq!(t, "env-token");
}

#[test]
fn blank_gh_output_is_not_a_token() {
    let t = choose_token(Some("  \n".into()), Some("env-token".into())).unwrap();
    assert_eq!(t, "env-token");
}

#[test]
fn trims_whitespace() {
    let t = choose_token(Some("  gh-token\n".into()), None).unwrap();
    assert_eq!(t, "gh-token");
}

#[test]
fn error_mentions_both_options() {
    let err = choose_token(None, None).unwrap_err().message();
    assert!(err.contains("gh auth login"), "got: {err}");
    assert!(err.contains("GITHUB_TOKEN"), "got: {err}");
}

#[test]
fn blank_tokens_are_no_tokens() {
    assert!(choose_token(Some(String::new()), Some("\t \n".into())).is_err());
    assert_eq!(
        choose_token(None, Some("\u{a0}env\u{3000}".into())).unwrap(),
        "env"
    );
}

#[test]
fn white_space_inside_a_token_stays() {
    assert_eq!(choose_token(Some(" a b ".into()), None).unwrap(), "a b");
}
