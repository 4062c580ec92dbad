//! Lists and creates version-control worktrees from the tool's porcelain
//! listing, and drives the interactive menu built on top of it.
pub mod text;
pub mod ui;
pub mod worktree;
