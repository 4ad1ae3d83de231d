//! What git says about a repository, as plain values.

use vstd::prelude::*;

use crate::path::FilePath;

verus! {

/// A text that may be missing, by what it reads.
pub open spec fn reading(text: Option<String>) -> Option<Seq<char>> {
    match text {
        Some(s) => Some(s@),
        None => None,
    }
}

/// A copy of a text that may be missing.
pub fn copy_text(text: &Option<String>) -> (r: Option<String>)
    ensures
        reading(r) == reading(*text),
{
    match text {
        Some(s) => Some(s.clone()),
        None => None,
    }
}

/// One checkout of the repository.
#[derive(Debug)]
pub struct Worktree {
    pub path: FilePath,
    /// The commit that is checked out.
    pub head: Option<String>,
    /// The branch that is checked out, unless the checkout is detached.
    pub branch: Option<String>,
    pub bare: bool,
    pub detached: bool,
    pub locked: bool,
    /// The checkout lost what ties it to the repository.
    pub prunable: bool,
}

/// A worktree as contracts speak of it.
pub struct WorktreeModel {
    pub path: Seq<u8>,
    pub head: Option<Seq<char>>,
    pub branch: Option<Seq<char>>,
    pub bare: bool,
    pub detached: bool,
    pub locked: bool,
    pub prunable: bool,
}

impl View for Worktree {
    type V = WorktreeModel;

    open spec fn view(&self) -> WorktreeModel {
        WorktreeModel {
            path: self.path@,
            head: reading(self.head),
            branch: reading(self.branch),
            bare: self.bare,
            detached: self.detached,
            locked: self.locked,
            prunable: self.prunable,
        }
    }
}

impl Clone for Worktree {
    fn clone(&self) -> (r: Worktree)
        ensures
            r@ == self@,
    {
        Worktree {
            path: self.path.clone(),
            head: copy_text(&self.head),
            branch: copy_text(&self.branch),
            bare: self.bare,
            detached: self.detached,
            locked: self.locked,
            prunable: self.prunable,
        }
    }
}

/// What the worktrees of a list are.
pub open spec fn models(list: Seq<Worktree>) -> Seq<WorktreeModel> {
    list.map_values(|w: Worktree| w@)
}

/// Whether a branch's work is in the `HEAD` of the main worktree.
#[derive(Debug, Clone, Copy, PartialEq, Eq, Structural)]
pub enum Merged {
    /// Its commits are.
    Commits,
    /// Its changes are, under other commits: a squash or rebase merge.
    Changes,
    /// It has no commits of its own yet.
    New,
    /// It is not.
    No,
}

/// Where a branch stands with its upstream.
#[derive(Debug, Clone, Copy, PartialEq, Eq, Structural)]
pub enum Tracking {
    /// Every commit is on the upstream.
    Pushed,
    /// This many commits are not on the upstream.
    Ahead(usize),
    /// The upstream is gone from the remote.
    Gone,
    /// There is no upstream.
    Untracked,
}

/// The repository a command runs in.
#[derive(Debug)]
pub struct Repo {
    /// Where the command was started.
    pub cwd: FilePath,
    /// The main worktree.
    pub main: FilePath,
}

/// A repository as contracts speak of it.
pub struct RepoModel {
    pub cwd: Seq<u8>,
    pub main: Seq<u8>,
}

impl View for Repo {
    type V = RepoModel;

    open spec fn view(&self) -> RepoModel {
        RepoModel { cwd: self.cwd@, main: self.main@ }
    }
}

} // verus!
