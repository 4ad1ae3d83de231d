//! What `gwx remove` does at each step, word for word.

use vstd::prelude::*;

use crate::commands::remove::{
    farewell, needs_status, refusal, removal_blocker, remove_worktree, Action, HookContext, Phase,
    Removal, RemoveOptions, Report, Reporting, Stage,
};
use crate::git::{Merged, Repo, Worktree};
use crate::path::{lossy, same_place, within};
use crate::text::readings;

verus! {

/// git is to be run with exactly these words.
pub open spec fn asks_git(action: Action, words: Seq<Seq<char>>, quiet: bool) -> bool {
    action matches Action::RunGit { args, quiet: q } && q == quiet && args@.len() == words.len()
        && forall|i: int| 0 <= i < words.len() ==> (#[trigger] args@[i])@ == words[i]
}

/// The removal gives up with exactly these lines.
pub open spec fn gives_up(action: Action, words: Seq<Seq<char>>, caused: bool) -> bool {
    action matches Action::Fail { lines, caused: c } && c == caused && lines@.len() == words.len()
        && forall|i: int| 0 <= i < words.len() ==> (#[trigger] lines@[i])@ == words[i]
}

/// The hooks of this phase are to be run, seen or unseen as the removal is.
pub open spec fn asks_hooks(action: Action, phase: Phase, quiet: bool) -> bool {
    action matches Action::RunHooks { phase: p, reporting } && p == phase && reporting == (
    if quiet {
        Reporting::Captured
    } else {
        Reporting::Announce
    })
}

/// The command that removes a worktree.
pub open spec fn asks_for_worktree(action: Action, worktree: Worktree, opts: RemoveOptions) -> bool {
    let path = lossy(worktree.path.bytes@);
    if opts.force {
        asks_git(
            action,
            seq!["worktree"@, "remove"@, "--force"@, "--"@, path],
            opts.quiet,
        )
    } else {
        asks_git(action, seq!["worktree"@, "remove"@, "--"@, path], opts.quiet)
    }
}

/// What comes once nothing stands in the way of the worktree: its directory
/// goes first where the checkout is broken.
pub open spec fn asks_for_checkout(
    stage: Stage,
    action: Action,
    worktree: Worktree,
    opts: RemoveOptions,
) -> bool {
    if worktree.prunable {
        stage == Stage::Directory && (action matches Action::DeleteDirectory { path }
            && path.bytes@ == worktree.path.bytes@)
    } else {
        stage == Stage::Worktree && asks_for_worktree(action, worktree, opts)
    }
}

/// What comes once everything is gone.
pub open spec fn asks_for_the_end(stage: Stage, action: Action, opts: RemoveOptions) -> bool {
    if opts.no_hooks {
        stage == Stage::Over && action is Finish
    } else {
        stage == Stage::PostHooks && asks_hooks(action, Phase::PostRemove, opts.quiet)
    }
}

/// A removal is refused for the main worktree, for the one it was asked from,
/// and, unless it is forced, for a broken checkout and for uncommitted changes:
/// in this order, and for nothing else.
pub proof fn law_what_blocks_a_removal(
    repo: &Repo,
    worktree: &Worktree,
    force: bool,
    dirty: Option<bool>,
    r: Option<String>,
)
    requires
        call_ensures(removal_blocker, (repo, worktree, force, dirty), r),
    ensures
        ({
            let main = same_place(worktree.path.bytes@, repo.main.bytes@);
            let inside = within(repo.cwd.bytes@, worktree.path.bytes@);
            let broken = worktree.prunable && !force;
            let changed = dirty == Some(true) && !force;
            &&& r is Some <==> main || inside || broken || changed
            &&& main ==> r->0@ == "this is the main worktree"@
            &&& inside && !main ==> r->0@ == "you are inside this worktree"@
            &&& broken && !main && !inside ==> r->0@
                == "its checkout is broken and gwx cannot tell whether it holds uncommitted work; pass --force to delete it anyway"@
            &&& changed && !main && !inside && !broken ==> r->0@ == "it has uncommitted changes"@
        }),
{
}

/// git's status is needed exactly where two different answers could lead to
/// two different decisions.
pub proof fn law_status_is_needed_where_it_decides(
    repo: &Repo,
    worktree: &Worktree,
    force: bool,
    needed: bool,
    clean: Option<String>,
    changed: Option<String>,
)
    requires
        call_ensures(needs_status, (repo, worktree, force), needed),
        call_ensures(removal_blocker, (repo, worktree, force, Some(false)), clean),
        call_ensures(removal_blocker, (repo, worktree, force, Some(true)), changed),
    ensures
        needed <==> clean is None && changed is Some,
{
}

/// `gwx remove` refuses the main worktree, the one it was started in and, unless
/// it is forced, one with uncommitted changes, and says so in these words.
pub proof fn law_what_the_command_refuses(
    repo: &Repo,
    worktree: &Worktree,
    force: bool,
    dirty: Option<bool>,
    r: Option<String>,
)
    requires
        call_ensures(refusal, (repo, worktree, force, dirty), r),
    ensures
        ({
            let main = same_place(worktree.path.bytes@, repo.main.bytes@);
            let inside = within(repo.cwd.bytes@, worktree.path.bytes@);
            let changed = dirty == Some(true) && !force;
            let path = lossy(worktree.path.bytes@);
            &&& r is Some <==> main || inside || changed
            &&& main ==> r->0@ == "refusing to remove the main worktree"@
            &&& inside && !main ==> r->0@ == "you are inside "@ + path
                + ". Move out of it first (try `gwx cd @`)"@
            &&& changed && !main && !inside ==> r->0@ == path
                + " has uncommitted changes. Commit them or pass --force"@
        }),
{
}

/// The command refuses nothing that the removal itself would let go.
pub proof fn law_the_command_refuses_no_more_than_the_removal(
    repo: &Repo,
    worktree: &Worktree,
    force: bool,
    dirty: Option<bool>,
    told: Option<String>,
    blocked: Option<String>,
)
    requires
        call_ensures(refusal, (repo, worktree, force, dirty), told),
        call_ensures(removal_blocker, (repo, worktree, force, dirty), blocked),
    ensures
        told is Some ==> blocked is Some,
        blocked is Some && told is None ==> worktree.prunable && !force,
{
}

/// Once it is done, `gwx remove` says that the worktree is gone and, where it
/// took the branch too, that the branch is.
pub proof fn law_what_is_said_when_done(worktree: &Worktree, with_branch: bool, r: Vec<String>)
    requires
        call_ensures(farewell, (worktree, with_branch), r),
    ensures
        r@.len() == if with_branch && worktree.branch is Some {
            2int
        } else {
            1
        },
        r@[0]@ == "Removed "@ + lossy(worktree.path.bytes@),
        with_branch && worktree.branch is Some ==> r@[1]@ == "Deleted branch `"@
            + worktree.branch->0@ + "`"@,
{
    assert(readings(r@).len() == r@.len());
    assert(readings(r@)[0] == r@[0]@);
    if with_branch && worktree.branch is Some {
        assert(readings(r@)[1] == r@[1]@);
    }
}

/// Hooks are told of the worktree that goes, and of no other.
pub proof fn law_what_hooks_are_told(removal: &Removal, r: HookContext)
    requires
        call_ensures(Removal::hook_context, (removal,), r),
    ensures
        r.main_worktree.bytes@ == removal.main.bytes@,
        r.worktree_path.bytes@ == removal.worktree.path.bytes@,
        r.name@ == removal.name@,
        removal.worktree.branch is Some ==> r.branch@ == removal.worktree.branch->0@,
        removal.worktree.branch is None ==> r.branch@.len() == 0,
{
}

/// A removal begins with `pre_remove` or, where hooks are switched off, with
/// the checkout. One that is refused is over at once, and says what for.
pub proof fn law_how_a_removal_begins(
    repo: &Repo,
    worktree: &Worktree,
    name: &str,
    opts: RemoveOptions,
    dirty: Option<bool>,
    r: (Removal, Action),
    blocked: Option<String>,
)
    requires
        call_ensures(remove_worktree, (repo, worktree, name, opts, dirty), r),
        call_ensures(removal_blocker, (repo, worktree, opts.force, dirty), blocked),
    ensures
        r.0.opts == opts,
        r.0.name@ == name@,
        r.0.main.bytes@ == repo.main.bytes@,
        r.0.worktree@ == worktree@,
        match blocked {
            Some(reason) => r.0.stage == Stage::Over && gives_up(
                r.1,
                seq!["cannot remove "@ + lossy(worktree.path.bytes@) + ": "@ + reason@],
                false,
            ),
            None => if opts.no_hooks {
                asks_for_checkout(r.0.stage, r.1, *worktree, opts)
            } else {
                r.0.stage == Stage::PreHooks && asks_hooks(r.1, Phase::PreRemove, opts.quiet)
            },
        },
{
    lemma_words(r.1);
}

/// What the words of a request are, one by one.
proof fn lemma_words(action: Action)
    ensures
        action matches Action::RunGit { args, .. } ==> readings(args@).len() == args@.len()
            && forall|i: int| 0 <= i < args@.len() ==> readings(args@)[i] == (#[trigger] args@[i])@,
        action matches Action::Fail { lines, .. } ==> readings(lines@).len() == lines@.len()
            && forall|i: int|
            0 <= i < lines@.len() ==> readings(lines@)[i] == (#[trigger] lines@[i])@,
{
}

/// Nothing about a removal changes as it goes on but how far it has come.
pub proof fn law_a_removal_stays_what_it_is(removal: &mut Removal, report: Report, r: Action)
    requires
        call_ensures(Removal::advance, (removal, report), r),
    ensures
        final(removal).opts == old(removal).opts,
        final(removal).worktree == old(removal).worktree,
        final(removal).main == old(removal).main,
        final(removal).name == old(removal).name,
{
}

/// Once `pre_remove` has run, the checkout is next; where it failed, its own
/// error is all there is to say.
pub proof fn law_after_pre_remove(removal: &mut Removal, report: Report, r: Action)
    requires
        old(removal).stage == Stage::PreHooks,
        call_ensures(Removal::advance, (removal, report), r),
    ensures
        if report == Report::Done {
            asks_for_checkout(final(removal).stage, r, old(removal).worktree, old(removal).opts)
        } else {
            final(removal).stage == Stage::Over && gives_up(r, Seq::empty(), true)
        },
{
    lemma_words(r);
}

/// Once the directory of a broken checkout is gone, or was not there to begin
/// with, git is asked to drop the worktree.
pub proof fn law_after_the_directory(removal: &mut Removal, report: Report, r: Action)
    requires
        old(removal).stage == Stage::Directory,
        call_ensures(Removal::advance, (removal, report), r),
    ensures
        if report == Report::Done || report == Report::Missing {
            final(removal).stage == Stage::Worktree && asks_for_worktree(
                r,
                old(removal).worktree,
                old(removal).opts,
            )
        } else {
            final(removal).stage == Stage::Over && gives_up(
                r,
                seq!["failed to delete "@ + lossy(old(removal).worktree.path.bytes@)],
                true,
            )
        },
{
    lemma_words(r);
}

/// Once the worktree is gone, the branch is next where it was asked for, and
/// the end where it was not. A worktree without a branch has none to give.
pub proof fn law_after_the_worktree(removal: &mut Removal, report: Report, r: Action)
    requires
        old(removal).stage == Stage::Worktree,
        call_ensures(Removal::advance, (removal, report), r),
    ensures
        ({
            let path = lossy(old(removal).worktree.path.bytes@);
            let opts = old(removal).opts;
            let stage = final(removal).stage;
            if report != Report::Done {
                stage == Stage::Over && gives_up(r, seq!["failed to remove "@ + path], true)
            } else if !opts.with_branch {
                asks_for_the_end(stage, r, opts)
            } else {
                match old(removal).worktree.branch {
                    Some(branch) => stage == Stage::Merge && (r matches Action::ReadMerged {
                        branch: asked,
                    } && asked@ == branch@),
                    None => stage == Stage::Over && gives_up(
                        r,
                        seq![
                            "the worktree at "@ + path + " was removed"@
                                + ", but it had no branch to remove"@,
                        ],
                        false,
                    ),
                }
            }
        }),
{
    lemma_words(r);
}

/// The branch is deleted with `-d` exactly when its own commits are merged and
/// the removal is not forced, and with `-D` in every other case: git's own test
/// would refuse a squash merge. An unmerged branch goes only by force.
pub proof fn law_after_the_merge_question(removal: &mut Removal, report: Report, r: Action)
    requires
        old(removal).stage == Stage::Merge,
        old(removal).worktree.branch is Some,
        call_ensures(Removal::advance, (removal, report), r),
    ensures
        ({
            let path = lossy(old(removal).worktree.path.bytes@);
            let branch = old(removal).worktree.branch->0@;
            let opts = old(removal).opts;
            let stage = final(removal).stage;
            match report {
                Report::Merged(merged) => if merged == Merged::No && !opts.force {
                    stage == Stage::Over && gives_up(
                        r,
                        seq![
                            "the worktree at "@ + path + " was removed"@ + ", but branch `"@
                                + branch
                                + "` is not merged into HEAD of the main worktree and was kept; pass --force to delete it too"@,
                        ],
                        false,
                    )
                } else if merged == Merged::Commits && !opts.force {
                    stage == Stage::Branch && asks_git(
                        r,
                        seq!["branch"@, "-d"@, "--"@, branch],
                        opts.quiet,
                    )
                } else {
                    stage == Stage::Branch && asks_git(
                        r,
                        seq!["branch"@, "-D"@, "--"@, branch],
                        opts.quiet,
                    )
                },
                _ => stage == Stage::Over && gives_up(
                    r,
                    seq!["the worktree at "@ + path + " was removed"@],
                    true,
                ),
            }
        }),
{
    lemma_words(r);
}

/// Once the branch is gone, the end is next.
pub proof fn law_after_the_branch(removal: &mut Removal, report: Report, r: Action)
    requires
        old(removal).stage == Stage::Branch,
        old(removal).worktree.branch is Some,
        call_ensures(Removal::advance, (removal, report), r),
    ensures
        ({
            let path = lossy(old(removal).worktree.path.bytes@);
            let branch = old(removal).worktree.branch->0@;
            if report == Report::Done {
                asks_for_the_end(final(removal).stage, r, old(removal).opts)
            } else {
                final(removal).stage == Stage::Over && gives_up(
                    r,
                    seq![
                        "the worktree at "@ + path + " was removed"@,
                        "failed to delete branch `"@ + branch + "`"@,
                    ],
                    true,
                )
            }
        }),
{
    lemma_words(r);
}

/// Once `post_remove` has run, the removal is finished; where it failed, the
/// rest is done all the same, and is said to be.
pub proof fn law_after_post_remove(removal: &mut Removal, report: Report, r: Action)
    requires
        old(removal).stage == Stage::PostHooks,
        call_ensures(Removal::advance, (removal, report), r),
    ensures
        ({
            let path = lossy(old(removal).worktree.path.bytes@);
            let also = if old(removal).opts.with_branch {
                " and its branch"@
            } else {
                ""@
            };
            &&& final(removal).stage == Stage::Over
            &&& if report == Report::Done {
                r is Finish
            } else {
                gives_up(
                    r,
                    seq!["the worktree at "@ + path + also + " was already removed"@],
                    true,
                )
            }
        }),
{
    lemma_words(r);
}

} // verus!
