# gh-web-dash

A local web dashboard showing recent GitHub Actions runs across all your repositories: one row per
repository with the latest run of each of its workflows, newest activity first, and the recent
history of each workflow.

## Layout

- `src/` is the library, verified with Verus. It decides which repositories are polled
  (`inclusion`, `config`), which runs are kept (`filter`), what is asked of GitHub and what its
  answers mean (`github`), what an answer changes (`sync`), what is stored and shown (`store`), what
  the pages are answered (`server`), which token is used (`auth`) and how an older database is
  brought up to date (`migrate`). `store/laws.rs`, `sync/laws.rs` and the ends of the other files
  hold the properties that span several functions.
- `app/` is the program around it: arguments, files, SQLite, the network, and the web server.
- `tests/` run the library.

The store works on rows in memory. The program reads them from the database when another process
has changed it, and writes back what an operation changed.

## Run

    gh-web-dash

It authenticates with `gh auth token`, falling back to `$GITHUB_TOKEN`.

- `--no-open`: do not open a browser
- `--config <path>`: use a different config file
- `--port <port>`: bind a specific port instead of an OS-assigned one
- `--host <addr>`: bind a specific address (default `127.0.0.1`, this machine only)

## Configuration

`~/.config/gh-web-dash/config.toml`, created with defaults on first run:

    poll_interval_secs = 180
    include_orgs = true
    ignore = ["you/old-*"]

`ignore` holds globs matched against `owner/repo`; a `*` does not match the slash.
