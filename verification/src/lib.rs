//! The logic of a local dashboard of GitHub Actions runs.
pub mod auth;
pub mod clock;
pub mod config;
pub mod filter;
pub mod github;
pub mod globs;
pub mod inclusion;
pub mod migrate;
pub mod server;
pub mod store;
pub mod sync;
pub mod table;
pub mod text;
