use gh_web_dash::config::{Config, ConfigError, IgnoreError, DEFAULT_CONFIG};

#[test]
fn defaults_apply_to_empty_config() {
    let c = Config::from_toml("").unwrap();
    assert_eq!(c.poll_interval_secs, 180);
    assert!(c.include_orgs);
    assert!(c.ignore.is_empty());
}

#[test]
fn parses_all_fields() {
    let c = Config::from_toml(
        r#"
poll_interval_secs = 60
include_orgs = false
ignore = ["autarch/old-*"]
"#,
    )
    .unwrap();
    assert_eq!(c.poll_interval_secs, 60);
    assert!(!c.include_orgs);
    assert_eq!(c.ignore, vec!["autarch/old-*".to_string()]);
}

#[test]
fn rejects_zero_poll_interval() {
    let err = Config::from_toml("poll_interval_secs = 0").unwrap_err();
    assert!(
        err.message().contains("poll_interval_secs"),
        "got: {}",
        err.message()
    );
}

#[test]
fn ignore_matcher_matches_globs_and_exact_names() {
    let c = Config::from_toml(r#"ignore = ["autarch/old-*", "autarch/scratch"]"#).unwrap();
    let m = c.ignore_matcher().unwrap();
    assert!(m.is_ignored("autarch/old-thing"));
    assert!(m.is_ignored("autarch/scratch"));
    assert!(!m.is_ignored("autarch/precious"));
    // A glob must not match across the slash separator.
    assert!(!m.is_ignored("other/old-thing"));
}

#[test]
fn empty_ignore_list_matches_nothing() {
    let c = Config::from_toml("").unwrap();
    let m = c.ignore_matcher().unwrap();
    assert!(!m.is_ignored("autarch/anything"));
}

#[test]
fn the_default_file_gives_the_defaults() {
    let c = Config::from_toml(DEFAULT_CONFIG).unwrap();
    assert_eq!(c.poll_interval_secs, 180);
    assert!(c.include_orgs);
    assert!(c.ignore.is_empty());
}

#[test]
fn a_file_that_is_not_toml_is_rejected() {
    let err = Config::from_toml("poll_interval_secs = = 3").unwrap_err();
    assert!(matches!(err, ConfigError::Syntax(_)));
    assert_eq!(err.message(), "failed to parse config file");
}

#[test]
fn an_unknown_key_is_rejected() {
    let err = Config::from_toml("colour = \"red\"").unwrap_err();
    assert!(matches!(err, ConfigError::UnknownKey(k) if k == "colour"));
}

#[test]
fn a_value_of_the_wrong_type_is_rejected() {
    for text in [
        "poll_interval_secs = -1",
        "poll_interval_secs = \"60\"",
        "poll_interval_secs = 1.5",
        "include_orgs = 1",
        "ignore = \"a/b\"",
        "ignore = [1]",
    ] {
        let err = Config::from_toml(text).unwrap_err();
        assert!(matches!(err, ConfigError::WrongValue(_)), "{text}");
    }
}

#[test]
fn a_glob_star_does_not_cross_the_slash() {
    let c = Config::from_toml(r#"ignore = ["autarch*", "*/tmp-?"]"#).unwrap();
    let m = c.ignore_matcher().unwrap();
    assert!(!m.is_ignored("autarch/precious"));
    assert!(m.is_ignored("anyone/tmp-1"));
    assert!(!m.is_ignored("anyone/tmp-12"));
}

#[test]
fn a_pattern_that_is_no_glob_is_named() {
    let c = Config::from_toml(r#"ignore = ["a/ok", "a/[", "b/["]"#).unwrap();
    let err = c.ignore_matcher().unwrap_err();
    assert!(matches!(&err, IgnoreError::Invalid { pattern, .. } if pattern == "a/["));
    assert_eq!(err.message(), "invalid ignore glob: a/[");
}
