//! `gwx remove` — delete a worktree, optionally with its branch.

use vstd::prelude::*;
use vstd::string::*;

use crate::git::{Merged, Repo, RepoModel, Worktree, WorktreeModel};
use crate::path::{lossy, same_place, within, FilePath};
use crate::text::readings;

verus! {

/// What a removal is allowed to do.
#[derive(Debug, Clone, Copy)]
pub struct RemoveOptions {
    /// Remove despite uncommitted changes, and delete an unmerged branch.
    pub force: bool,
    /// Delete the branch along with the worktree.
    pub with_branch: bool,
    /// Keep git quiet — the interactive picker owns the terminal.
    pub quiet: bool,
    /// Skip the pre_remove and post_remove hooks.
    pub no_hooks: bool,
}

impl Default for RemoveOptions {
    fn default() -> (r: RemoveOptions)
        ensures
            !r.force,
            !r.with_branch,
            !r.quiet,
            !r.no_hooks,
    {
        RemoveOptions { force: false, with_branch: false, quiet: false, no_hooks: false }
    }
}

/// Why a removal is refused, if it is. `dirty` is what `git status` said about
/// uncommitted changes, and `None` when it could not say.
pub open spec fn blocker(
    repo: RepoModel,
    worktree: WorktreeModel,
    force: bool,
    dirty: Option<bool>,
) -> Option<Seq<char>> {
    if same_place(worktree.path, repo.main) {
        Some("this is the main worktree"@)
    } else if within(repo.cwd, worktree.path) {
        Some("you are inside this worktree"@)
    } else if !force && worktree.prunable {
        Some(
            "its checkout is broken and gwx cannot tell whether it holds uncommitted work; pass --force to delete it anyway"@,
        )
    } else if !force && dirty == Some(true) {
        Some("it has uncommitted changes"@)
    } else {
        None
    }
}

/// Whether [`blocker`] turns on what `git status` says.
pub open spec fn status_matters(repo: RepoModel, worktree: WorktreeModel, force: bool) -> bool {
    &&& !force
    &&& !same_place(worktree.path, repo.main)
    &&& !within(repo.cwd, worktree.path)
    &&& !worktree.prunable
}

/// Whether git has to be asked for a status before [`removal_blocker`] can
/// answer. Asking is the expensive part, and a forced removal never needs it.
pub fn needs_status(repo: &Repo, worktree: &Worktree, force: bool) -> (r: bool)
    ensures
        r == status_matters(repo@, worktree@, force),
{
    !force && !worktree.path.is(&repo.main) && !repo.cwd.starts_with(&worktree.path)
        && !worktree.prunable
}

/// Refuses removals that would leave the user stranded or lose work.
///
/// Split out so the picker can show the same reasons before asking for
/// confirmation, rather than discovering them after the fact.
pub fn removal_blocker(repo: &Repo, worktree: &Worktree, force: bool, dirty: Option<bool>) -> (r:
    Option<String>)
    ensures
        crate::git::reading(r) == blocker(repo@, worktree@, force, dirty),
{
    if worktree.path.is(&repo.main) {
        return Some("this is the main worktree".to_string());
    }
    if repo.cwd.starts_with(&worktree.path) {
        return Some("you are inside this worktree".to_string());
    }
    // A broken checkout cannot be asked what it is holding: `git status`
    // fails on it, so the dirty check below would wave through work that is
    // about to be deleted along with the directory.
    if !force && worktree.prunable {
        return Some(
            "its checkout is broken and gwx cannot tell whether it holds uncommitted work; pass --force to delete it anyway".to_string(),
        );
    }
    if !force && dirty.unwrap_or(false) {
        return Some("it has uncommitted changes".to_string());
    }
    None
}

/// Where git does not need to be asked, its answer would change nothing.
pub proof fn law_status_asked_only_where_it_matters(
    repo: RepoModel,
    worktree: WorktreeModel,
    force: bool,
    one: Option<bool>,
    other: Option<bool>,
)
    requires
        !status_matters(repo, worktree, force),
    ensures
        blocker(repo, worktree, force, one) == blocker(repo, worktree, force, other),
{
}

/// `--force` gives way to nothing but the main worktree and the one the
/// command was started in.
pub proof fn law_force_spares_only_where_you_stand(
    repo: RepoModel,
    worktree: WorktreeModel,
    dirty: Option<bool>,
)
    ensures
        blocker(repo, worktree, true, dirty) is Some <==> same_place(worktree.path, repo.main)
            || within(repo.cwd, worktree.path),
{
}

/// Without `--force`, a worktree that is let go is neither broken nor known to
/// hold uncommitted changes.
pub proof fn law_unforced_removal_loses_no_known_work(
    repo: RepoModel,
    worktree: WorktreeModel,
    dirty: Option<bool>,
)
    requires
        blocker(repo, worktree, false, dirty) is None,
    ensures
        !worktree.prunable,
        dirty != Some(true),
{
}

/// When hooks run.
#[derive(Debug, Clone, Copy, PartialEq, Eq, Structural)]
pub enum Phase {
    PreRemove,
    PostRemove,
}

/// What becomes of what a hook prints.
#[derive(Debug, Clone, Copy, PartialEq, Eq, Structural)]
pub enum Reporting {
    /// Kept, and shown only when the hook fails.
    Captured,
    /// Shown as it comes.
    Announce,
}

/// What a hook is told about the removal it belongs to.
#[derive(Debug)]
pub struct HookContext {
    pub main_worktree: FilePath,
    pub worktree_path: FilePath,
    pub name: String,
    pub branch: String,
}

/// How far a removal has come: what was asked for last.
#[derive(Debug, Clone, Copy, PartialEq, Eq, Structural)]
pub enum Stage {
    PreHooks,
    Directory,
    Worktree,
    Merge,
    Branch,
    PostHooks,
    Over,
}

/// How the last thing that was asked for went.
#[derive(Debug, Clone, Copy, PartialEq, Eq, Structural)]
pub enum Report {
    Done,
    /// It failed because there was nothing there.
    Missing,
    Failed,
    /// The answer to whether the branch is merged.
    Merged(Merged),
}

/// What a removal needs done next.
#[derive(Debug)]
pub enum Action {
    RunHooks { phase: Phase, reporting: Reporting },
    /// Delete the directory and everything below it.
    DeleteDirectory { path: FilePath },
    /// Run git in the main worktree.
    RunGit { args: Vec<String>, quiet: bool },
    /// Find out whether the branch is merged.
    ReadMerged { branch: String },
    Finish,
    /// Give up. The lines say what went wrong, the widest view first; where
    /// `caused` is set, the error of the failed step follows them.
    Fail { lines: Vec<String>, caused: bool },
}

/// An action as contracts speak of it.
pub enum ActionModel {
    RunHooks { phase: Phase, reporting: Reporting },
    DeleteDirectory { path: Seq<u8> },
    RunGit { args: Seq<Seq<char>>, quiet: bool },
    ReadMerged { branch: Seq<char> },
    Finish,
    Fail { lines: Seq<Seq<char>>, caused: bool },
}

impl View for Action {
    type V = ActionModel;

    open spec fn view(&self) -> ActionModel {
        match *self {
            Action::RunHooks { phase, reporting } => ActionModel::RunHooks { phase, reporting },
            Action::DeleteDirectory { path } => ActionModel::DeleteDirectory { path: path@ },
            Action::RunGit { args, quiet } => ActionModel::RunGit { args: readings(args@), quiet },
            Action::ReadMerged { branch } => ActionModel::ReadMerged { branch: branch@ },
            Action::Finish => ActionModel::Finish,
            Action::Fail { lines, caused } => ActionModel::Fail {
                lines: readings(lines@),
                caused,
            },
        }
    }
}

/// What is said once the worktree is gone.
pub open spec fn removed_text(worktree: WorktreeModel) -> Seq<char> {
    "the worktree at "@ + lossy(worktree.path) + " was removed"@
}

/// The git arguments that remove a worktree. Past `--` the argument is a path,
/// whatever it starts with.
pub open spec fn remove_args(worktree: WorktreeModel, force: bool) -> Seq<Seq<char>> {
    if force {
        seq!["worktree"@, "remove"@, "--force"@, "--"@, lossy(worktree.path)]
    } else {
        seq!["worktree"@, "remove"@, "--"@, lossy(worktree.path)]
    }
}

/// The git arguments that delete a branch. `-d` runs the ancestry test again,
/// which a squash merge does not pass, so it is used only where it will.
pub open spec fn branch_args(branch: Seq<char>, merged: Merged, force: bool) -> Seq<Seq<char>> {
    if merged == Merged::Commits && !force {
        seq!["branch"@, "-d"@, "--"@, branch]
    } else {
        seq!["branch"@, "-D"@, "--"@, branch]
    }
}

pub open spec fn reporting(opts: RemoveOptions) -> Reporting {
    if opts.quiet {
        Reporting::Captured
    } else {
        Reporting::Announce
    }
}

pub open spec fn failure(lines: Seq<Seq<char>>, caused: bool) -> (Stage, ActionModel) {
    (Stage::Over, ActionModel::Fail { lines, caused })
}

/// The last part: the hooks that run once everything is gone.
pub open spec fn to_post_hooks(opts: RemoveOptions) -> (Stage, ActionModel) {
    if opts.no_hooks {
        (Stage::Over, ActionModel::Finish)
    } else {
        (
            Stage::PostHooks,
            ActionModel::RunHooks { phase: Phase::PostRemove, reporting: reporting(opts) },
        )
    }
}

/// Once the worktree is gone: on to the branch, when it was asked for.
pub open spec fn to_branch(worktree: WorktreeModel, opts: RemoveOptions) -> (Stage, ActionModel) {
    if !opts.with_branch {
        to_post_hooks(opts)
    } else {
        match worktree.branch {
            None => failure(
                seq![removed_text(worktree) + ", but it had no branch to remove"@],
                false,
            ),
            Some(branch) => (Stage::Merge, ActionModel::ReadMerged { branch }),
        }
    }
}

pub open spec fn to_worktree(worktree: WorktreeModel, opts: RemoveOptions) -> (Stage, ActionModel) {
    (
        Stage::Worktree,
        ActionModel::RunGit { args: remove_args(worktree, opts.force), quiet: opts.quiet },
    )
}

/// Once the hooks have run: a broken checkout loses its directory first, since
/// git will not remove a worktree whose `.git` has gone missing.
pub open spec fn to_directory(worktree: WorktreeModel, opts: RemoveOptions) -> (
    Stage,
    ActionModel,
) {
    if worktree.prunable {
        (Stage::Directory, ActionModel::DeleteDirectory { path: worktree.path })
    } else {
        to_worktree(worktree, opts)
    }
}

/// The first thing a removal asks for.
pub open spec fn first(
    repo: RepoModel,
    worktree: WorktreeModel,
    opts: RemoveOptions,
    dirty: Option<bool>,
) -> (Stage, ActionModel) {
    match blocker(repo, worktree, opts.force, dirty) {
        Some(reason) => failure(
            seq!["cannot remove "@ + lossy(worktree.path) + ": "@ + reason],
            false,
        ),
        None => if opts.no_hooks {
            to_directory(worktree, opts)
        } else {
            (
                Stage::PreHooks,
                ActionModel::RunHooks { phase: Phase::PreRemove, reporting: reporting(opts) },
            )
        },
    }
}

/// Once it is known whether the branch is merged.
pub open spec fn on_merged(worktree: WorktreeModel, opts: RemoveOptions, merged: Merged) -> (
    Stage,
    ActionModel,
) {
    let branch = worktree.branch->0;
    if !opts.force && merged == Merged::No {
        failure(
            seq![
                removed_text(worktree) + ", but branch `"@ + branch
                    + "` is not merged into HEAD of the main worktree and was kept; pass --force to delete it too"@,
            ],
            false,
        )
    } else {
        (
            Stage::Branch,
            ActionModel::RunGit {
                args: branch_args(branch, merged, opts.force),
                quiet: opts.quiet,
            },
        )
    }
}

/// What follows a report on the last thing that was asked for.
pub open spec fn following(
    worktree: WorktreeModel,
    opts: RemoveOptions,
    stage: Stage,
    report: Report,
) -> (Stage, ActionModel) {
    match stage {
        Stage::PreHooks => if report == Report::Done {
            to_directory(worktree, opts)
        } else {
            failure(Seq::empty(), true)
        },
        Stage::Directory => if report == Report::Done || report == Report::Missing {
            to_worktree(worktree, opts)
        } else {
            failure(seq!["failed to delete "@ + lossy(worktree.path)], true)
        },
        Stage::Worktree => if report == Report::Done {
            to_branch(worktree, opts)
        } else {
            failure(seq!["failed to remove "@ + lossy(worktree.path)], true)
        },
        Stage::Merge => match report {
            Report::Merged(merged) => on_merged(worktree, opts, merged),
            _ => failure(seq![removed_text(worktree)], true),
        },
        Stage::Branch => if report == Report::Done {
            to_post_hooks(opts)
        } else {
            failure(
                seq![
                    removed_text(worktree),
                    "failed to delete branch `"@ + worktree.branch->0 + "`"@,
                ],
                true,
            )
        },
        Stage::PostHooks => if report == Report::Done {
            (Stage::Over, ActionModel::Finish)
        } else {
            failure(
                seq![
                    "the worktree at "@ + lossy(worktree.path) + (if opts.with_branch {
                        " and its branch"@
                    } else {
                        ""@
                    }) + " was already removed"@,
                ],
                true,
            )
        },
        Stage::Over => (Stage::Over, ActionModel::Finish),
    }
}

/// A removal under way. It says what to do next; whoever runs it does that,
/// and reports back.
#[derive(Debug)]
pub struct Removal {
    pub main: FilePath,
    pub worktree: Worktree,
    /// What the worktree is called.
    pub name: String,
    pub opts: RemoveOptions,
    pub stage: Stage,
}

/// A failure with one line.
fn give_up(line: String, caused: bool) -> (r: (Stage, Action))
    ensures
        (r.0, r.1@) == failure(seq![line@], caused),
{
    let mut lines: Vec<String> = Vec::new();
    lines.push(line);
    assert(readings(lines@) =~= seq![line@]);
    (Stage::Over, Action::Fail { lines, caused })
}

/// A failure that has nothing to add to the error of the failed step.
fn pass_on() -> (r: (Stage, Action))
    ensures
        (r.0, r.1@) == failure(Seq::empty(), true),
{
    let lines: Vec<String> = Vec::new();
    assert(readings(lines@) =~= Seq::<Seq<char>>::empty());
    (Stage::Over, Action::Fail { lines, caused: true })
}

impl Removal {
    /// Where a branch is being dealt with, there is one and it was asked for.
    pub open spec fn wf(&self) -> bool {
        self.stage == Stage::Merge || self.stage == Stage::Branch ==> self.opts.with_branch
            && self.worktree.branch is Some
    }

    /// What the hooks of this removal are told.
    pub fn hook_context(&self) -> (r: HookContext)
        ensures
            r.main_worktree@ == self.main@,
            r.worktree_path@ == self.worktree@.path,
            r.name@ == self.name@,
            r.branch@ == match self.worktree@.branch {
                Some(branch) => branch,
                None => Seq::empty(),
            },
    {
        let branch = match &self.worktree.branch {
            Some(branch) => branch.clone(),
            None => String::new(),
        };
        HookContext {
            main_worktree: self.main.clone(),
            worktree_path: self.worktree.path.clone(),
            name: self.name.clone(),
            branch,
        }
    }

    fn reporting(&self) -> (r: Reporting)
        ensures
            r == reporting(self.opts),
    {
        if self.opts.quiet {
            Reporting::Captured
        } else {
            Reporting::Announce
        }
    }

    fn removed(&self) -> (r: String)
        ensures
            r@ == removed_text(self.worktree@),
    {
        "the worktree at ".to_string().concat(self.worktree.path.display().as_str()).concat(
            " was removed",
        )
    }

    fn go_to_post_hooks(&self) -> (r: (Stage, Action))
        ensures
            (r.0, r.1@) == to_post_hooks(self.opts),
    {
        if self.opts.no_hooks {
            (Stage::Over, Action::Finish)
        } else {
            (
                Stage::PostHooks,
                Action::RunHooks { phase: Phase::PostRemove, reporting: self.reporting() },
            )
        }
    }

    fn go_to_branch(&self) -> (r: (Stage, Action))
        ensures
            (r.0, r.1@) == to_branch(self.worktree@, self.opts),
    {
        if !self.opts.with_branch {
            return self.go_to_post_hooks();
        }
        // Everything past here happens with the worktree already gone, so a
        // failure has to say so: otherwise `--with-branch` looks like it did
        // nothing at all, and the next attempt starts from a state the
        // message never mentioned.
        match &self.worktree.branch {
            None => give_up(self.removed().concat(", but it had no branch to remove"), false),
            Some(branch) => (Stage::Merge, Action::ReadMerged { branch: branch.clone() }),
        }
    }

    fn go_to_worktree(&self) -> (r: (Stage, Action))
        ensures
            (r.0, r.1@) == to_worktree(self.worktree@, self.opts),
    {
        let mut args: Vec<String> = Vec::new();
        args.push("worktree".to_string());
        args.push("remove".to_string());
        if self.opts.force {
            args.push("--force".to_string());
        }
        args.push("--".to_string());
        args.push(self.worktree.path.display());
        assert(readings(args@) =~= remove_args(self.worktree@, self.opts.force));
        (Stage::Worktree, Action::RunGit { args, quiet: self.opts.quiet })
    }

    fn go_to_directory(&self) -> (r: (Stage, Action))
        ensures
            (r.0, r.1@) == to_directory(self.worktree@, self.opts),
    {
        if self.worktree.prunable {
            (Stage::Directory, Action::DeleteDirectory { path: self.worktree.path.clone() })
        } else {
            self.go_to_worktree()
        }
    }

    fn go_on_merged(&self, branch: &String, merged: Merged) -> (r: (Stage, Action))
        requires
            crate::git::reading(self.worktree.branch) == Some(branch@),
        ensures
            (r.0, r.1@) == on_merged(self.worktree@, self.opts, merged),
    {
        if !self.opts.force && merged == Merged::No {
            let line = self.removed().concat(", but branch `").concat(branch.as_str()).concat(
                "` is not merged into HEAD of the main worktree and was kept; pass --force to delete it too",
            );
            return give_up(line, false);
        }
        let mut args: Vec<String> = Vec::new();
        args.push("branch".to_string());
        // `git branch -d` runs the same ancestry test that misses a squash
        // merge, so it would refuse a branch already judged safe.
        if merged == Merged::Commits && !self.opts.force {
            args.push("-d".to_string());
        } else {
            args.push("-D".to_string());
        }
        args.push("--".to_string());
        args.push(branch.clone());
        assert(readings(args@) =~= branch_args(branch@, merged, self.opts.force));
        (Stage::Branch, Action::RunGit { args, quiet: self.opts.quiet })
    }

    /// Takes the report on what was asked for last, and says what is next.
    pub fn advance(&mut self, report: Report) -> (action: Action)
        requires
            old(self).wf(),
            old(self).stage != Stage::Over,
        ensures
            final(self).wf(),
            (final(self).stage, action@) == following(
                old(self).worktree@,
                old(self).opts,
                old(self).stage,
                report,
            ),
            final(self).worktree == old(self).worktree,
            final(self).main == old(self).main,
            final(self).name == old(self).name,
            final(self).opts == old(self).opts,
    {
        let path = self.worktree.path.display();
        let (stage, action) = match self.stage {
            Stage::PreHooks => if report == Report::Done {
                self.go_to_directory()
            } else {
                pass_on()
            },
            Stage::Directory => if report == Report::Done || report == Report::Missing {
                self.go_to_worktree()
            } else {
                give_up("failed to delete ".to_string().concat(path.as_str()), true)
            },
            Stage::Worktree => if report == Report::Done {
                self.go_to_branch()
            } else {
                give_up("failed to remove ".to_string().concat(path.as_str()), true)
            },
            Stage::Merge => match (report, &self.worktree.branch) {
                (Report::Merged(merged), Some(branch)) => self.go_on_merged(branch, merged),
                _ => give_up(self.removed(), true),
            },
            Stage::Branch => if report == Report::Done {
                self.go_to_post_hooks()
            } else {
                let branch = match &self.worktree.branch {
                    Some(branch) => branch.clone(),
                    None => String::new(),
                };
                let mut lines: Vec<String> = Vec::new();
                lines.push(self.removed());
                lines.push(
                    "failed to delete branch `".to_string().concat(branch.as_str()).concat("`"),
                );
                assert(readings(lines@) =~= seq![
                    removed_text(self.worktree@),
                    "failed to delete branch `"@ + branch@ + "`"@,
                ]);
                (Stage::Over, Action::Fail { lines, caused: true })
            },
            Stage::PostHooks => if report == Report::Done {
                (Stage::Over, Action::Finish)
            } else {
                let also = if self.opts.with_branch {
                    " and its branch"
                } else {
                    ""
                };
                give_up(
                    "the worktree at ".to_string().concat(path.as_str()).concat(also).concat(
                        " was already removed",
                    ),
                    true,
                )
            },
            Stage::Over => (Stage::Over, Action::Finish),
        };
        self.stage = stage;
        action
    }
}

/// Starts the removal of a worktree, and of its branch when asked.
///
/// The hooks bracket the whole removal: `pre_remove` while the worktree is
/// still there, so it can stop what is running inside it or make the files
/// deletable, and `post_remove` once the worktree — and the branch, when
/// `--with-branch` was given — is gone, so cleanup outside the repository has
/// nothing left to trip over.
///
/// Returns the removal and the first thing it needs done.
pub fn remove_worktree(
    repo: &Repo,
    worktree: &Worktree,
    name: &str,
    opts: RemoveOptions,
    dirty: Option<bool>,
) -> (r: (Removal, Action))
    ensures
        r.0.wf(),
        (r.0.stage, r.1@) == first(repo@, worktree@, opts, dirty),
        r.0.main@ == repo@.main,
        r.0.worktree@ == worktree@,
        r.0.name@ == name@,
        r.0.opts == opts,
{
    let mut removal = Removal {
        main: repo.main.clone(),
        worktree: worktree.clone(),
        name: name.to_string(),
        opts,
        stage: Stage::Over,
    };
    let (stage, action) = match removal_blocker(repo, worktree, opts.force, dirty) {
        Some(reason) => give_up(
            "cannot remove ".to_string().concat(worktree.path.display().as_str()).concat(
                ": ",
            ).concat(reason.as_str()),
            false,
        ),
        None => if opts.no_hooks {
            removal.go_to_directory()
        } else {
            (
                Stage::PreHooks,
                Action::RunHooks { phase: Phase::PreRemove, reporting: removal.reporting() },
            )
        },
    };
    removal.stage = stage;
    (removal, action)
}

/// What the command line is told instead of a removal. It says more than
/// [`removal_blocker`], whose words have to fit the picker's status line.
pub open spec fn refused(
    repo: RepoModel,
    worktree: WorktreeModel,
    force: bool,
    dirty: Option<bool>,
) -> Option<Seq<char>> {
    if same_place(worktree.path, repo.main) {
        Some("refusing to remove the main worktree"@)
    } else if within(repo.cwd, worktree.path) {
        Some(
            "you are inside "@ + lossy(worktree.path)
                + ". Move out of it first (try `gwx cd @`)"@,
        )
    } else if !force && dirty == Some(true) {
        Some(
            lossy(worktree.path)
                + " has uncommitted changes. Commit them or pass --force"@,
        )
    } else {
        None
    }
}

/// Why `gwx remove` refuses, if it does.
pub fn refusal(repo: &Repo, worktree: &Worktree, force: bool, dirty: Option<bool>) -> (r: Option<
    String,
>)
    ensures
        crate::git::reading(r) == refused(repo@, worktree@, force, dirty),
{
    if worktree.path.is(&repo.main) {
        return Some("refusing to remove the main worktree".to_string());
    }
    if repo.cwd.starts_with(&worktree.path) {
        return Some(
            "you are inside ".to_string().concat(worktree.path.display().as_str()).concat(
                ". Move out of it first (try `gwx cd @`)",
            ),
        );
    }
    if !force && dirty.unwrap_or(false) {
        return Some(
            worktree.path.display().concat(
                " has uncommitted changes. Commit them or pass --force",
            ),
        );
    }
    None
}

/// What `gwx remove` says once it is done.
pub open spec fn farewell_lines(worktree: WorktreeModel, with_branch: bool) -> Seq<Seq<char>> {
    let gone = "Removed "@ + lossy(worktree.path);
    match worktree.branch {
        Some(branch) if with_branch => seq![gone, "Deleted branch `"@ + branch + "`"@],
        _ => seq![gone],
    }
}

/// The lines `gwx remove` prints once it is done.
pub fn farewell(worktree: &Worktree, with_branch: bool) -> (r: Vec<String>)
    ensures
        readings(r@) == farewell_lines(worktree@, with_branch),
{
    let mut r: Vec<String> = Vec::new();
    r.push("Removed ".to_string().concat(worktree.path.display().as_str()));
    if with_branch {
        if let Some(branch) = &worktree.branch {
            r.push("Deleted branch `".to_string().concat(branch.as_str()).concat("`"));
        }
    }
    assert(readings(r@) =~= farewell_lines(worktree@, with_branch));
    r
}

} // verus!
