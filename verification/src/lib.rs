//! Worktree state for a repository: parsing the porcelain listing, resolving a
//! target to one checkout, and the rules that protect checkouts from removal.

pub mod add;
pub mod agent;
pub mod cli;
pub mod config;
pub mod discovery;
pub mod error;
pub mod fzf;
pub mod git;
pub mod init;
pub mod interactive;
pub mod list;
pub mod order;
pub mod path;
pub mod preview;
pub mod process;
pub mod prune;
pub mod remove;
pub mod text;
pub mod worktree;
