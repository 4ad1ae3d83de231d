//! Decisions behind the interactive side of a git worktree manager.
pub mod commands;
pub mod git;
pub mod path;
pub mod path_laws;
pub mod text;
pub mod text_laws;
pub mod tui;
