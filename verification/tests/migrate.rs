use gh_web_dash::migrate::{migrate, RepoColumn, Step, SCHEMA};

fn columns(names: &[&str]) -> Vec<String> {
    names.iter().map(|n| n.to_string()).collect()
}

#[test]
fn a_fresh_database_gets_every_column() {
    let steps = migrate(
        &columns(&["id", "repo_full_name"]),
        &columns(&["full_name", "default_branch", "etag", "last_synced", "ignored"]),
    );
    assert_eq!(
        steps,
        vec![
            Step::AddRepoColumn(RepoColumn::UserOverride),
            Step::AddRepoColumn(RepoColumn::Archived),
            Step::AddRepoColumn(RepoColumn::PushedAt),
            Step::AddRepoColumn(RepoColumn::SkipReason),
            Step::AddWorkflowPath,
        ]
    );
    assert_eq!(
        steps[1].sql(),
        "ALTER TABLE repos ADD COLUMN archived INTEGER NOT NULL DEFAULT 0;"
    );
    assert_eq!(steps[3].failure(), "failed to add repos.skip_reason");
    assert!(steps[4].sql().contains("UPDATE repos SET etag = NULL;"));
    assert_eq!(steps[4].failure(), "failed to add runs.workflow_path");
}

#[test]
fn the_obsolete_column_goes_first() {
    let steps = migrate(
        &columns(&["id", "workflow_id"]),
        &columns(&["user_override", "archived", "pushed_at", "skip_reason"]),
    );
    assert_eq!(steps, vec![Step::DropWorkflowId, Step::AddWorkflowPath]);
    assert_eq!(
        steps[0].sql(),
        "ALTER TABLE runs DROP COLUMN workflow_id;"
    );
}

#[test]
fn a_current_database_needs_no_step() {
    assert!(migrate(
        &columns(&["id", "workflow_path"]),
        &columns(&["skip_reason", "pushed_at", "archived", "user_override"]),
    )
    .is_empty());
}

/// The steps on a real database: once they are done, none is left.
#[test]
fn the_steps_work_on_a_database_and_are_done_once() {
    let conn = rusqlite::Connection::open_in_memory().unwrap();
    conn.execute_batch(SCHEMA).unwrap();
    conn.execute_batch("INSERT INTO repos (full_name, default_branch, etag) VALUES ('a/b', 'main', 'x');")
        .unwrap();
    let read = |table: &str| -> Vec<String> {
        let mut stmt = conn
            .prepare("SELECT name FROM pragma_table_info(?1)")
            .unwrap();
        let names: Vec<String> = stmt
            .query_map([table], |row| row.get(0))
            .unwrap()
            .map(|n| n.unwrap())
            .collect();
        names
    };
    let steps = migrate(&read("runs"), &read("repos"));
    assert_eq!(steps.len(), 5);
    for step in &steps {
        conn.execute_batch(&step.sql()).unwrap();
    }
    assert!(migrate(&read("runs"), &read("repos")).is_empty());
    let etag: Option<String> = conn
        .query_row("SELECT etag FROM repos", [], |row| row.get(0))
        .unwrap();
    assert_eq!(etag, None);
}

/// What is stored outlives a migration, and ETags that are set after it outlive the next.
#[test]
fn a_migration_keeps_what_is_stored() {
    let conn = rusqlite::Connection::open_in_memory().unwrap();
    conn.execute_batch(SCHEMA).unwrap();
    conn.execute_batch(
        "ALTER TABLE runs ADD COLUMN workflow_id INTEGER;
         INSERT INTO repos (full_name, default_branch, etag, ignored) VALUES
             ('a/one', 'main', 'x', 1), ('a/two', 'dev', NULL, 0);
         INSERT INTO runs VALUES (7, 'a/one', 'W', 'main', 'me', 'completed', 'success', 'abc',
             'Do a thing', 'https://x', '2026-08-04T09:00:00Z', 99);",
    )
    .unwrap();
    let columns = |table: &str| -> Vec<String> {
        let mut stmt = conn
            .prepare("SELECT name FROM pragma_table_info(?1)")
            .unwrap();
        let names: Vec<String> = stmt
            .query_map([table], |row| row.get(0))
            .unwrap()
            .map(|n| n.unwrap())
            .collect();
        names
    };
    let update = || {
        for step in migrate(&columns("runs"), &columns("repos")) {
            conn.execute_batch(&step.sql()).unwrap();
        }
    };
    let text = |sql: &str| -> String { conn.query_row(sql, [], |row| row.get(0)).unwrap() };

    update();
    assert!(!columns("runs").contains(&"workflow_id".to_string()));
    let repo = "SELECT full_name || '|' || default_branch || '|' || ifnull(etag, '-') || '|' ||
         ignored || '|' || ifnull(user_override, '-') || '|' || archived || '|' ||
         ifnull(pushed_at, '-') || '|' || ifnull(skip_reason, '-')
         FROM repos WHERE full_name = 'a/one'";
    assert_eq!(text(repo), "a/one|main|-|1|-|0|-|-");
    assert_eq!(
        text(
            "SELECT id || '|' || repo_full_name || '|' || workflow_name || '|' || branch || '|' ||
             actor || '|' || status || '|' || conclusion || '|' || commit_sha || '|' ||
             commit_subject || '|' || html_url || '|' || started_at || '|' ||
             ifnull(workflow_path, '-') FROM runs"
        ),
        "7|a/one|W|main|me|completed|success|abc|Do a thing|https://x|2026-08-04T09:00:00Z|-"
    );

    conn.execute_batch("UPDATE repos SET etag = 'y' WHERE full_name = 'a/one';")
        .unwrap();
    update();
    assert_eq!(text(repo), "a/one|main|y|1|-|0|-|-");
}
