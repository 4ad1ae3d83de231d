//! What holds of every removal from start to end, whatever is reported back.

use vstd::prelude::*;

use crate::commands::remove::{
    blocker, branch_args, first, following, remove_args, removed_text, reporting, to_branch,
    to_directory, to_post_hooks, to_worktree, ActionModel, Phase, RemoveOptions, Report, Reporting,
    Stage,
};
use crate::git::{Merged, RepoModel, WorktreeModel};
use crate::path::lossy;

verus! {

/// The stages a removal goes through from one point on, with what it asks for
/// at each, when it gets these reports one after another. It stops when it is
/// over or the reports run out.
pub open spec fn course_from(
    worktree: WorktreeModel,
    opts: RemoveOptions,
    at: (Stage, ActionModel),
    reports: Seq<Report>,
) -> Seq<(Stage, ActionModel)>
    decreases reports.len(),
{
    if at.0 == Stage::Over || reports.len() == 0 {
        seq![at]
    } else {
        seq![at] + course_from(
            worktree,
            opts,
            following(worktree, opts, at.0, reports[0]),
            reports.drop_first(),
        )
    }
}

/// The course of a whole removal.
pub open spec fn course(
    repo: RepoModel,
    worktree: WorktreeModel,
    opts: RemoveOptions,
    dirty: Option<bool>,
    reports: Seq<Report>,
) -> Seq<(Stage, ActionModel)> {
    course_from(worktree, opts, first(repo, worktree, opts, dirty), reports)
}

/// A request after which something that was there is not.
pub open spec fn destroys(action: ActionModel) -> bool {
    action is DeleteDirectory || action is RunGit
}

/// How far along a stage is.
spec fn rank(stage: Stage) -> int {
    match stage {
        Stage::PreHooks => 0,
        Stage::Directory => 1,
        Stage::Worktree => 2,
        Stage::Merge => 3,
        Stage::Branch => 4,
        Stage::PostHooks => 5,
        Stage::Over => 6,
    }
}

/// Each stage of a course follows from the one before it and its report.
proof fn lemma_step(
    worktree: WorktreeModel,
    opts: RemoveOptions,
    at: (Stage, ActionModel),
    reports: Seq<Report>,
    i: int,
)
    requires
        0 < i < course_from(worktree, opts, at, reports).len(),
    ensures
        i <= reports.len(),
        course_from(worktree, opts, at, reports)[i - 1].0 != Stage::Over,
        course_from(worktree, opts, at, reports)[i] == following(
            worktree,
            opts,
            course_from(worktree, opts, at, reports)[i - 1].0,
            reports[i - 1],
        ),
    decreases reports.len(),
{
    let next = following(worktree, opts, at.0, reports[0]);
    let rest = course_from(worktree, opts, next, reports.drop_first());
    assert(rest[0] == next);
    if i > 1 {
        lemma_step(worktree, opts, next, reports.drop_first(), i - 1);
        assert(reports.drop_first()[i - 2] == reports[i - 1]);
    }
}

/// A course starts where it starts.
proof fn lemma_start(
    worktree: WorktreeModel,
    opts: RemoveOptions,
    at: (Stage, ActionModel),
    reports: Seq<Report>,
)
    ensures
        course_from(worktree, opts, at, reports).len() > 0,
        course_from(worktree, opts, at, reports)[0] == at,
{
}

/// A refused removal touches nothing: it says why, and asks for nothing else.
pub proof fn law_refused_removal_touches_nothing(
    repo: RepoModel,
    worktree: WorktreeModel,
    opts: RemoveOptions,
    dirty: Option<bool>,
    reports: Seq<Report>,
)
    requires
        blocker(repo, worktree, opts.force, dirty) is Some,
    ensures
        course(repo, worktree, opts, dirty, reports).len() == 1,
        course(repo, worktree, opts, dirty, reports)[0].1 is Fail,
{
}

/// Unless hooks are switched off, nothing is destroyed before `pre_remove` has
/// run and succeeded.
pub proof fn law_nothing_goes_before_pre_remove(
    repo: RepoModel,
    worktree: WorktreeModel,
    opts: RemoveOptions,
    dirty: Option<bool>,
    reports: Seq<Report>,
    i: int,
)
    requires
        !opts.no_hooks,
        0 <= i < course(repo, worktree, opts, dirty, reports).len(),
        destroys(course(repo, worktree, opts, dirty, reports)[i].1),
    ensures
        i > 0,
        course(repo, worktree, opts, dirty, reports)[0].1 == (ActionModel::RunHooks {
            phase: Phase::PreRemove,
            reporting: reporting(opts),
        }),
        reports[0] == Report::Done,
{
    let at = first(repo, worktree, opts, dirty);
    let all = course(repo, worktree, opts, dirty, reports);
    lemma_start(worktree, opts, at, reports);
    if i > 0 {
        lemma_step(worktree, opts, at, reports, 1);
        if reports[0] != Report::Done {
            assert(all[1].0 == Stage::Over);
            if i > 1 {
                lemma_step(worktree, opts, at, reports, 2);
            }
        }
    }
}

/// When `pre_remove` fails, the removal is called off with everything still in
/// place.
pub proof fn law_failed_pre_remove_keeps_the_worktree(
    repo: RepoModel,
    worktree: WorktreeModel,
    opts: RemoveOptions,
    dirty: Option<bool>,
    reports: Seq<Report>,
)
    requires
        !opts.no_hooks,
        reports.len() > 0,
        reports[0] != Report::Done,
    ensures
        course(repo, worktree, opts, dirty, reports).last().1 is Fail,
        forall|i: int|
            0 <= i < course(repo, worktree, opts, dirty, reports).len() ==> !destroys(
                (#[trigger] course(repo, worktree, opts, dirty, reports)[i]).1,
            ),
{
    reveal_with_fuel(course_from, 2);
}

/// The branch is deleted only when that was asked for, only once it is known
/// to be merged or the removal is forced, and only after git reported the
/// worktree gone.
pub proof fn law_branch_goes_last_and_only_when_safe(
    repo: RepoModel,
    worktree: WorktreeModel,
    opts: RemoveOptions,
    dirty: Option<bool>,
    reports: Seq<Report>,
    i: int,
)
    requires
        0 <= i < course(repo, worktree, opts, dirty, reports).len(),
        course(repo, worktree, opts, dirty, reports)[i].0 == Stage::Branch,
    ensures
        opts.with_branch,
        worktree.branch is Some,
        2 <= i <= reports.len(),
        reports[i - 1] is Merged,
        opts.force || reports[i - 1] != Report::Merged(Merged::No),
        course(repo, worktree, opts, dirty, reports)[i].1 == (ActionModel::RunGit {
            args: branch_args(worktree.branch->0, reports[i - 1]->Merged_0, opts.force),
            quiet: opts.quiet,
        }),
        course(repo, worktree, opts, dirty, reports)[i - 2].1 == (ActionModel::RunGit {
            args: remove_args(worktree, opts.force),
            quiet: opts.quiet,
        }),
        reports[i - 2] == Report::Done,
{
    let at = first(repo, worktree, opts, dirty);
    lemma_start(worktree, opts, at, reports);
    lemma_step(worktree, opts, at, reports, i);
    lemma_step(worktree, opts, at, reports, i - 1);
    if i > 2 {
        lemma_step(worktree, opts, at, reports, i - 2);
    }
}

/// git is asked for nothing but the removal of this worktree and of its
/// branch.
pub proof fn law_git_is_asked_for_nothing_else(
    repo: RepoModel,
    worktree: WorktreeModel,
    opts: RemoveOptions,
    dirty: Option<bool>,
    reports: Seq<Report>,
    i: int,
)
    requires
        0 <= i < course(repo, worktree, opts, dirty, reports).len(),
        course(repo, worktree, opts, dirty, reports)[i].1 is RunGit,
    ensures
        course(repo, worktree, opts, dirty, reports)[i].0 == Stage::Worktree || course(
            repo,
            worktree,
            opts,
            dirty,
            reports,
        )[i].0 == Stage::Branch,
{
    let at = first(repo, worktree, opts, dirty);
    lemma_start(worktree, opts, at, reports);
    if i > 0 {
        lemma_step(worktree, opts, at, reports, i);
    }
}

/// A directory is deleted outright only for a broken checkout, and only when
/// the removal is forced.
pub proof fn law_only_a_forced_removal_deletes_a_broken_checkout(
    repo: RepoModel,
    worktree: WorktreeModel,
    opts: RemoveOptions,
    dirty: Option<bool>,
    reports: Seq<Report>,
    i: int,
)
    requires
        0 <= i < course(repo, worktree, opts, dirty, reports).len(),
        course(repo, worktree, opts, dirty, reports)[i].1 is DeleteDirectory,
    ensures
        course(repo, worktree, opts, dirty, reports)[i].1 == (ActionModel::DeleteDirectory {
            path: worktree.path,
        }),
        worktree.prunable,
        opts.force,
{
    let at = first(repo, worktree, opts, dirty);
    lemma_start(worktree, opts, at, reports);
    if i > 0 {
        lemma_step(worktree, opts, at, reports, i);
        lemma_step(worktree, opts, at, reports, 1);
    }
}

/// A report that lets a removal go on.
pub open spec fn goes_well(opts: RemoveOptions, stage: Stage, report: Report) -> bool {
    match stage {
        Stage::Directory => report == Report::Done || report == Report::Missing,
        Stage::Merge => match report {
            Report::Merged(merged) => opts.force || merged != Merged::No,
            _ => false,
        },
        _ => report == Report::Done,
    }
}

/// The hooks before everything else, unless they are switched off.
pub open spec fn pre_part(opts: RemoveOptions) -> Seq<(Stage, ActionModel)> {
    if opts.no_hooks {
        Seq::empty()
    } else {
        seq![
            (
                Stage::PreHooks,
                ActionModel::RunHooks { phase: Phase::PreRemove, reporting: reporting(opts) },
            ),
        ]
    }
}

/// The directory of a broken checkout, and of no other.
pub open spec fn directory_part(worktree: WorktreeModel) -> Seq<(Stage, ActionModel)> {
    if worktree.prunable {
        seq![(Stage::Directory, ActionModel::DeleteDirectory { path: worktree.path })]
    } else {
        Seq::empty()
    }
}

/// The worktree itself.
pub open spec fn worktree_part(worktree: WorktreeModel, opts: RemoveOptions) -> Seq<
    (Stage, ActionModel),
> {
    seq![
        (
            Stage::Worktree,
            ActionModel::RunGit { args: remove_args(worktree, opts.force), quiet: opts.quiet },
        ),
    ]
}

/// The branch, where it was asked for.
pub open spec fn branch_part(worktree: WorktreeModel, opts: RemoveOptions, merged: Merged) -> Seq<
    (Stage, ActionModel),
> {
    if opts.with_branch {
        seq![
            (Stage::Merge, ActionModel::ReadMerged { branch: worktree.branch->0 }),
            (
                Stage::Branch,
                ActionModel::RunGit {
                    args: branch_args(worktree.branch->0, merged, opts.force),
                    quiet: opts.quiet,
                },
            ),
        ]
    } else {
        Seq::empty()
    }
}

/// The hooks after everything else, unless they are switched off, and the end.
pub open spec fn post_part(opts: RemoveOptions) -> Seq<(Stage, ActionModel)> {
    (if opts.no_hooks {
        Seq::empty()
    } else {
        seq![
            (
                Stage::PostHooks,
                ActionModel::RunHooks { phase: Phase::PostRemove, reporting: reporting(opts) },
            ),
        ]
    }) + seq![(Stage::Over, ActionModel::Finish)]
}

/// All a removal does, from its first request to its last.
pub open spec fn whole_course(worktree: WorktreeModel, opts: RemoveOptions, merged: Merged) -> Seq<
    (Stage, ActionModel),
> {
    pre_part(opts) + directory_part(worktree) + worktree_part(worktree, opts) + branch_part(
        worktree,
        opts,
        merged,
    ) + post_part(opts)
}

/// How many requests come before the one about the branch.
pub open spec fn before_branch(worktree: WorktreeModel, opts: RemoveOptions) -> int {
    (pre_part(opts).len() + directory_part(worktree).len() + 1) as int
}

/// What a course does once it has got this far, if it finishes.
proof fn lemma_rest_of_course(
    worktree: WorktreeModel,
    opts: RemoveOptions,
    at: (Stage, ActionModel),
    reports: Seq<Report>,
)
    requires
        course_from(worktree, opts, at, reports).last().1 is Finish,
    ensures
        at == to_post_hooks(opts) ==> course_from(worktree, opts, at, reports) == post_part(opts),
        at == to_branch(worktree, opts) ==> course_from(worktree, opts, at, reports)
            == branch_part(worktree, opts, reports[0]->Merged_0) + post_part(opts),
        at == to_worktree(worktree, opts) ==> course_from(worktree, opts, at, reports)
            == worktree_part(worktree, opts) + (branch_part(
            worktree,
            opts,
            reports[1]->Merged_0,
        ) + post_part(opts)),
        at == to_directory(worktree, opts) && worktree.prunable ==> course_from(
            worktree,
            opts,
            at,
            reports,
        ) == directory_part(worktree) + (worktree_part(worktree, opts) + (branch_part(
            worktree,
            opts,
            reports[2]->Merged_0,
        ) + post_part(opts))),
        at.0 == Stage::Branch && at.1 is RunGit ==> course_from(worktree, opts, at, reports)
            == seq![at] + post_part(opts),
        at == to_branch(worktree, opts) || at == to_worktree(worktree, opts) || at == to_directory(
            worktree,
            opts,
        ) ==> opts.with_branch ==> worktree.branch is Some,
    decreases reports.len(),
{
    let all = course_from(worktree, opts, at, reports);
    if at.0 == Stage::Over || reports.len() == 0 {
        assert(all =~= seq![at]);
        if at == to_post_hooks(opts) {
            assert(all =~= post_part(opts));
        }
        if at == to_branch(worktree, opts) {
            assert(all =~= branch_part(worktree, opts, reports[0]->Merged_0) + post_part(opts));
        }
    } else {
        let next = following(worktree, opts, at.0, reports[0]);
        let after = reports.drop_first();
        let rest = course_from(worktree, opts, next, after);
        lemma_start(worktree, opts, next, after);
        assert(all == seq![at] + rest);
        assert(all.last() == rest.last());
        lemma_rest_of_course(worktree, opts, next, after);
        lemma_all_went_well(worktree, opts, next, after);
        if next.0 == Stage::Over {
            assert(rest =~= seq![next]);
        }
        if at == to_post_hooks(opts) {
            assert(all =~= post_part(opts));
        }
        if at == to_branch(worktree, opts) {
            let merged = reports[0]->Merged_0;
            assert(opts.with_branch ==> next.0 == Stage::Branch);
            assert(all =~= branch_part(worktree, opts, merged) + post_part(opts));
        }
        if at == to_worktree(worktree, opts) {
            assert(next == to_branch(worktree, opts));
            if opts.with_branch {
                assert(rest.len() >= 3);
                assert(after[0] == reports[1]);
            }
            assert(all =~= worktree_part(worktree, opts) + rest);
        }
        if at == to_directory(worktree, opts) && worktree.prunable {
            assert(next == to_worktree(worktree, opts));
            if opts.with_branch {
                assert(rest.len() >= 4);
                assert(after[1] == reports[2]);
            }
            assert(all =~= directory_part(worktree) + rest);
        }
    }
}

/// A course that finishes had nothing but reports that let it go on.
proof fn lemma_all_went_well(
    worktree: WorktreeModel,
    opts: RemoveOptions,
    at: (Stage, ActionModel),
    reports: Seq<Report>,
)
    requires
        course_from(worktree, opts, at, reports).last().1 is Finish,
    ensures
        course_from(worktree, opts, at, reports).len() <= reports.len() + 1,
        forall|i: int|
            0 <= i < course_from(worktree, opts, at, reports).len() - 1 ==> goes_well(
                opts,
                (#[trigger] course_from(worktree, opts, at, reports)[i]).0,
                reports[i],
            ),
    decreases reports.len(),
{
    if at.0 != Stage::Over && reports.len() > 0 {
        let all = course_from(worktree, opts, at, reports);
        let next = following(worktree, opts, at.0, reports[0]);
        let after = reports.drop_first();
        let rest = course_from(worktree, opts, next, after);
        lemma_start(worktree, opts, next, after);
        assert(all.last() == rest.last());
        lemma_all_went_well(worktree, opts, next, after);
        assert forall|i: int| 0 <= i < all.len() - 1 implies goes_well(
            opts,
            (#[trigger] all[i]).0,
            reports[i],
        ) by {
            if i == 0 {
                if next.0 == Stage::Over {
                    assert(rest =~= seq![next]);
                }
            } else {
                assert(all[i] == rest[i - 1]);
                assert(after[i - 1] == reports[i]);
            }
        }
    }
}

/// A removal that finishes did all it was asked to, each thing once and in this
/// order: `pre_remove` unless hooks are switched off, the directory of a broken
/// checkout, the worktree, the branch where that was asked for and once it was
/// known whether it is merged, and `post_remove` unless hooks are switched off.
/// Every one of them was reported to have gone well.
pub proof fn law_finishing_means_everything_was_done(
    repo: RepoModel,
    worktree: WorktreeModel,
    opts: RemoveOptions,
    dirty: Option<bool>,
    reports: Seq<Report>,
)
    requires
        course(repo, worktree, opts, dirty, reports).last().1 is Finish,
    ensures
        course(repo, worktree, opts, dirty, reports) == whole_course(
            worktree,
            opts,
            reports[before_branch(worktree, opts)]->Merged_0,
        ),
        opts.with_branch ==> worktree.branch is Some,
        course(repo, worktree, opts, dirty, reports).len() <= reports.len() + 1,
        forall|i: int|
            0 <= i < course(repo, worktree, opts, dirty, reports).len() - 1 ==> goes_well(
                opts,
                (#[trigger] course(repo, worktree, opts, dirty, reports)[i]).0,
                reports[i],
            ),
{
    let at = first(repo, worktree, opts, dirty);
    let all = course(repo, worktree, opts, dirty, reports);
    lemma_start(worktree, opts, at, reports);
    lemma_all_went_well(worktree, opts, at, reports);
    lemma_rest_of_course(worktree, opts, at, reports);
    let merged = reports[before_branch(worktree, opts)]->Merged_0;
    if !opts.no_hooks {
        assert(reports.len() > 0);
        let after = reports.drop_first();
        let next = to_directory(worktree, opts);
        assert(goes_well(opts, all[0].0, reports[0]));
        let rest = course_from(worktree, opts, next, after);
        assert(all == seq![at] + rest);
        lemma_start(worktree, opts, next, after);
        assert(all.last() == rest.last());
        lemma_rest_of_course(worktree, opts, next, after);
    }
    assert(all =~= whole_course(worktree, opts, merged));
}

/// A removal that is not refused, and whose every step is reported to have gone
/// well, finishes.
pub proof fn law_a_removal_that_goes_well_finishes(
    repo: RepoModel,
    worktree: WorktreeModel,
    opts: RemoveOptions,
    dirty: Option<bool>,
    reports: Seq<Report>,
)
    requires
        blocker(repo, worktree, opts.force, dirty) is None,
        opts.with_branch ==> worktree.branch is Some,
        reports.len() >= 6,
        forall|i: int|
            0 <= i < course(repo, worktree, opts, dirty, reports).len() - 1 ==> goes_well(
                opts,
                (#[trigger] course(repo, worktree, opts, dirty, reports)[i]).0,
                reports[i],
            ),
    ensures
        course(repo, worktree, opts, dirty, reports).last().1 is Finish,
{
    let at = first(repo, worktree, opts, dirty);
    let all = course(repo, worktree, opts, dirty, reports);
    let n = all.len() as int;
    lemma_start(worktree, opts, at, reports);
    law_every_removal_ends(repo, worktree, opts, dirty, reports);
    if n > 1 {
        lemma_step(worktree, opts, at, reports, n - 1);
        assert(goes_well(opts, all[n - 2].0, reports[n - 2]));
    }
}

/// A removal always comes to an end: after six reports at most it has finished
/// or given up.
pub proof fn law_every_removal_ends(
    repo: RepoModel,
    worktree: WorktreeModel,
    opts: RemoveOptions,
    dirty: Option<bool>,
    reports: Seq<Report>,
)
    requires
        reports.len() >= 6,
    ensures
        course(repo, worktree, opts, dirty, reports).last().0 == Stage::Over,
        course(repo, worktree, opts, dirty, reports).last().1 is Finish || course(
            repo,
            worktree,
            opts,
            dirty,
            reports,
        ).last().1 is Fail,
{
    lemma_ends(worktree, opts, first(repo, worktree, opts, dirty), reports);
}

proof fn lemma_ends(
    worktree: WorktreeModel,
    opts: RemoveOptions,
    at: (Stage, ActionModel),
    reports: Seq<Report>,
)
    requires
        reports.len() >= 6 - rank(at.0),
        at.0 == Stage::Over ==> at.1 is Finish || at.1 is Fail,
    ensures
        course_from(worktree, opts, at, reports).last().0 == Stage::Over,
        course_from(worktree, opts, at, reports).last().1 is Finish || course_from(
            worktree,
            opts,
            at,
            reports,
        ).last().1 is Fail,
    decreases reports.len(),
{
    if at.0 != Stage::Over {
        let next = following(worktree, opts, at.0, reports[0]);
        assert(rank(next.0) > rank(at.0));
        lemma_ends(worktree, opts, next, reports.drop_first());
    }
}

/// A request as it would be made out loud.
pub open spec fn out_loud(at: (Stage, ActionModel)) -> (Stage, ActionModel) {
    (
        at.0,
        match at.1 {
            ActionModel::RunHooks { phase, .. } => ActionModel::RunHooks {
                phase,
                reporting: Reporting::Announce,
            },
            ActionModel::RunGit { args, .. } => ActionModel::RunGit { args, quiet: false },
            other => other,
        },
    )
}

/// A quiet removal goes through the same hooks and the same git commands, in
/// the same order, as one that is not: all that differs is who gets to see what
/// they print.
pub proof fn law_quiet_changes_only_who_sees(
    repo: RepoModel,
    worktree: WorktreeModel,
    opts: RemoveOptions,
    dirty: Option<bool>,
    reports: Seq<Report>,
)
    ensures
        ({
            let loud = RemoveOptions { quiet: false, ..opts };
            course(repo, worktree, opts, dirty, reports).map_values(
                |at: (Stage, ActionModel)| out_loud(at),
            ) == course(repo, worktree, loud, dirty, reports)
        }),
{
    lemma_out_loud(worktree, opts, first(repo, worktree, opts, dirty), reports);
}

proof fn lemma_out_loud(
    worktree: WorktreeModel,
    opts: RemoveOptions,
    at: (Stage, ActionModel),
    reports: Seq<Report>,
)
    ensures
        course_from(worktree, opts, at, reports).map_values(
            |at: (Stage, ActionModel)| out_loud(at),
        ) == course_from(
            worktree,
            (RemoveOptions { quiet: false, ..opts }),
            out_loud(at),
            reports,
        ),
    decreases reports.len(),
{
    let loud = RemoveOptions { quiet: false, ..opts };
    let heard = |at: (Stage, ActionModel)| out_loud(at);
    let all = course_from(worktree, opts, at, reports);
    if at.0 == Stage::Over || reports.len() == 0 {
        assert(all.map_values(heard) =~= seq![out_loud(at)]);
    } else {
        let next = following(worktree, opts, at.0, reports[0]);
        assert(out_loud(next) == following(worktree, loud, at.0, reports[0]));
        lemma_out_loud(worktree, opts, next, reports.drop_first());
        let rest = course_from(worktree, opts, next, reports.drop_first());
        assert(all.map_values(heard) =~= seq![out_loud(at)] + rest.map_values(heard));
    }
}

/// A removal that fails once the worktree is gone says that it is gone, first
/// of all.
pub proof fn law_a_late_failure_says_what_went(
    worktree: WorktreeModel,
    opts: RemoveOptions,
    stage: Stage,
    report: Report,
)
    requires
        following(worktree, opts, stage, report).1 is Fail,
        stage == Stage::Worktree && report == Report::Done || stage == Stage::Merge || stage
            == Stage::Branch || stage == Stage::PostHooks,
    ensures
        ({
            let lines = following(worktree, opts, stage, report).1->Fail_lines;
            &&& lines.len() > 0
            &&& ("the worktree at "@ + lossy(worktree.path)).is_prefix_of(lines[0])
        }),
{
    let start = "the worktree at "@ + lossy(worktree.path);
    assert(start.is_prefix_of(removed_text(worktree)));
    let lines = following(worktree, opts, stage, report).1->Fail_lines;
    assert(lines[0].take(start.len() as int) =~= start);
}

} // verus!
