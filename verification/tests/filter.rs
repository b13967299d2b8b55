use gh_web_dash::filter::{is_bot, should_keep, RunCandidate};

fn cand(branch: &str, login: &str, actor_type: &str) -> RunCandidate {
    RunCandidate {
        branch: branch.to_string(),
        actor_login: login.to_string(),
        actor_type: actor_type.to_string(),
    }
}

#[test]
fn keeps_default_branch_run_by_user() {
    assert!(should_keep(
        &cand("main", "autarch", "User"),
        "main",
        "autarch"
    ));
}

#[test]
fn keeps_default_branch_run_by_another_human() {
    assert!(should_keep(
        &cand("main", "someone", "User"),
        "main",
        "autarch"
    ));
}

#[test]
fn keeps_own_branch_run() {
    assert!(should_keep(
        &cand("fix-sort", "autarch", "User"),
        "main",
        "autarch"
    ));
}

#[test]
fn drops_other_humans_branch_run() {
    assert!(!should_keep(
        &cand("their-fix", "someone", "User"),
        "main",
        "autarch"
    ));
}

#[test]
fn drops_bot_run_on_a_branch() {
    assert!(!should_keep(
        &cand("dependabot/cargo/serde-1.0.2", "dependabot[bot]", "Bot"),
        "main",
        "autarch"
    ));
}

#[test]
fn drops_bot_run_on_the_default_branch() {
    assert!(!should_keep(
        &cand("main", "dependabot[bot]", "Bot"),
        "main",
        "autarch"
    ));
}

#[test]
fn drops_bot_by_login_suffix_when_type_is_wrong() {
    // Some payloads report type "User" for apps; the login suffix is the backstop.
    assert!(!should_keep(
        &cand("main", "renovate[bot]", "User"),
        "main",
        "autarch"
    ));
}

#[test]
fn actor_type_check_is_case_insensitive() {
    assert!(!should_keep(
        &cand("main", "some-app", "bot"),
        "main",
        "autarch"
    ));
}

#[test]
fn user_comparison_is_case_insensitive() {
    assert!(should_keep(
        &cand("fix", "AUTARCH", "User"),
        "main",
        "autarch"
    ));
}

#[test]
fn respects_non_main_default_branch() {
    assert!(should_keep(
        &cand("master", "someone", "User"),
        "master",
        "autarch"
    ));
    assert!(!should_keep(
        &cand("main", "someone", "User"),
        "master",
        "autarch"
    ));
}

#[test]
fn a_bot_is_told_by_its_type_or_its_login() {
    assert!(is_bot("renovate", "BOT"));
    assert!(is_bot("Renovate[BoT]", "User"));
    assert!(!is_bot("[bot]renovate", "User"));
    assert!(!is_bot("robot", "User"));
    assert!(!is_bot("", ""));
    assert!(is_bot("[bot]", ""));
}

#[test]
fn a_bot_is_never_kept_even_where_it_is_the_user() {
    assert!(!should_keep(
        &cand("main", "app[bot]", "User"),
        "main",
        "app[bot]"
    ));
}

#[test]
fn only_ascii_letters_are_folded() {
    assert!(!should_keep(&cand("fix", "É", "User"), "main", "é"));
    assert!(should_keep(&cand("fix", "É", "User"), "main", "É"));
    assert!(!should_keep(&cand("MAIN", "other", "User"), "main", "me"));
}
