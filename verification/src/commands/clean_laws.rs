//! What `gwx clean` says and does, word for word.

use vstd::prelude::*;

use crate::commands::clean::{
    answer_models, candidate_models, candidate_names, candidate_verdicts, candidates, classify,
    closing, closing_text, describe, going_on, law_branches_are_found_wherever_they_stand, names_of,
    opening, outcome_line, plan, recorded, removable, run, table, table_line, tracking_model,
    verdicts_of, Answers, Candidate, CleanArgs, Cleaning, Planned, Printed, State, Task, Turn,
};
use crate::commands::remove::blocker;
use crate::git::{models, Merged, Repo, Tracking, Worktree, WorktreeModel};
use crate::path::{lossy, same_place, within};
use crate::text::{decimal, readings};
use crate::text_laws::{
    all_blank, is_widest, lemma_decimal_reads, lemma_widest_is_the_width, reads_as,
};

verus! {

// --- one worktree -------------------------------------------------------------

/// A state is called by its word.
pub proof fn law_states_have_their_words(state: State, r: &'static str)
    requires
        call_ensures(State::label, (state,), r),
    ensures
        state == State::Done ==> r@ == "done"@,
        state == State::Pushed ==> r@ == "pushed"@,
        state == State::Local ==> r@ == "local"@,
        state == State::Dirty ==> r@ == "dirty"@,
{
}

/// Only uncommitted changes make a removal unsafe, and with the branch also
/// commits that are nowhere else; the state follows in brackets unless the work
/// is done.
pub proof fn law_verdicts(state: State, with_branch: bool, r: String)
    requires
        call_ensures(State::verdict, (state, with_branch), r),
    ensures
        state == State::Done ==> r@ == "yes"@,
        state == State::Pushed ==> r@ == "yes (pushed)"@,
        state == State::Local && !with_branch ==> r@ == "yes (local)"@,
        state == State::Local && with_branch ==> r@ == "no (local)"@,
        state == State::Dirty ==> r@ == "no (dirty)"@,
{
    reveal_strlit("yes");
    reveal_strlit("no");
    reveal_strlit(" (");
    reveal_strlit(")");
    reveal_strlit("pushed");
    reveal_strlit("local");
    reveal_strlit("dirty");
    reveal_strlit("yes (pushed)");
    reveal_strlit("yes (local)");
    reveal_strlit("no (local)");
    reveal_strlit("no (dirty)");
    assert(state == State::Pushed ==> r@ =~= "yes (pushed)"@);
    assert(state == State::Local && !with_branch ==> r@ =~= "yes (local)"@);
    assert(state == State::Local && with_branch ==> r@ =~= "no (local)"@);
    assert(state == State::Dirty ==> r@ =~= "no (dirty)"@);
}

/// Nothing but finished work starts out ticked.
pub proof fn law_only_done_is_preselected(state: State, r: bool)
    requires
        call_ensures(State::preselected, (state,), r),
    ensures
        r <==> state == State::Done,
{
}

/// Which state git's answers come to. Uncommitted changes come first, then work
/// that is merged by its commits or its changes. What is left is pushed exactly
/// when it is a branch with commits of its own and its upstream has every one
/// of them, and local in every other case.
pub proof fn law_which_state_the_answers_come_to(
    dirty: bool,
    merged: Merged,
    track: Tracking,
    r: (State, String),
)
    requires
        call_ensures(classify, (dirty, merged, track), r),
    ensures
        r.0 == State::Dirty <==> dirty,
        r.0 == State::Done <==> !dirty && (merged == Merged::Commits || merged == Merged::Changes),
        r.0 == State::Pushed <==> !dirty && merged == Merged::No && track == Tracking::Pushed,
        r.0 == State::Local <==> !dirty && (merged == Merged::New || merged == Merged::No && track
            != Tracking::Pushed),
{
}

/// The sentence that goes with the answers.
pub proof fn law_which_sentence_the_answers_come_to(
    dirty: bool,
    merged: Merged,
    track: Tracking,
    r: (State, String),
)
    requires
        call_ensures(classify, (dirty, merged, track), r),
    ensures
        dirty ==> r.1@ == "uncommitted changes would be lost"@,
        !dirty && merged == Merged::Commits ==> r.1@ == "merged into HEAD, nothing uncommitted"@,
        !dirty && merged == Merged::Changes ==> r.1@
            == "squash or rebase merged into HEAD, nothing uncommitted"@,
        !dirty && merged == Merged::New ==> r.1@ == "new branch, no commits yet"@,
        !dirty && merged == Merged::No && track == Tracking::Pushed ==> r.1@
            == "not merged; every commit is on its upstream"@,
        !dirty && merged == Merged::No && track == Tracking::Gone ==> r.1@
            == "its upstream is gone from the remote"@,
        !dirty && merged == Merged::No && track == Tracking::Untracked ==> r.1@
            == "never pushed; it has no upstream"@,
{
}

/// The sentence about a branch that is ahead begins with how many commits it is
/// ahead by, whatever the number.
pub proof fn law_the_sentence_counts_the_commits(n: usize, r: (State, String))
    requires
        call_ensures(classify, (false, Merged::No, Tracking::Ahead(n)), r),
    ensures
        r.0 == State::Local,
        exists|number: Seq<char>|
            reads_as(number, n as int) && r.1@ == #[trigger] (number
                + " commit(s) not on its upstream"@),
{
    lemma_decimal_reads(n as nat);
    assert(r.1@ == decimal(n as nat) + " commit(s) not on its upstream"@);
}

/// A candidate is judged by git's answers about its own branch: without a branch
/// nothing is merged and nothing is pushed, and a status that git could not give
/// counts as clean.
pub proof fn law_a_candidate_is_judged_by_its_own_branch(
    worktree: &Worktree,
    answers: &Answers,
    tracking: &Vec<(String, Tracking)>,
    k: int,
    r: Candidate,
    judgement: (State, String),
)
    requires
        call_ensures(describe, (worktree, answers, tracking), r),
        call_ensures(
            classify,
            (
                answers.dirty == Some(true),
                if worktree.branch is Some {
                    answers.merged
                } else {
                    Merged::No
                },
                if worktree.branch is Some && 0 <= k < tracking@.len() && tracking@[k].0@
                    == worktree.branch->0@ {
                    tracking@[k].1
                } else {
                    Tracking::Untracked
                },
            ),
            judgement,
        ),
        forall|a: int, b: int|
            0 <= a < b < tracking@.len() ==> (#[trigger] tracking@[a]).0@ != (
            #[trigger] tracking@[b]).0@,
        worktree.branch is Some ==> (forall|a: int|
            0 <= a < tracking@.len() ==> (#[trigger] tracking@[a]).0@ != worktree.branch->0@) || (0
            <= k < tracking@.len() && tracking@[k].0@ == worktree.branch->0@),
    ensures
        r.name@ == answers.name@,
        r.worktree@ == worktree@,
        r.state == judgement.0,
        r.note@ == judgement.1@,
        r.state == State::Dirty <==> answers.dirty == Some(true),
        r.state == State::Done <==> answers.dirty != Some(true) && worktree.branch is Some && (
        answers.merged == Merged::Commits || answers.merged == Merged::Changes),
        r.state == State::Pushed <==> answers.dirty != Some(true) && worktree.branch is Some
            && answers.merged == Merged::No && 0 <= k < tracking@.len() && tracking@[k].0@
            == worktree.branch->0@ && tracking@[k].1 == Tracking::Pushed,
        answers.dirty != Some(true) && worktree.branch is None ==> r.note@
            == "never pushed; it has no upstream"@,
{
    let list = tracking_model(tracking@);
    if worktree.branch is Some {
        let branch = worktree.branch->0@;
        assert forall|a: int, b: int| 0 <= a < b < list.len() implies (#[trigger] list[a]).0 != (
        #[trigger] list[b]).0 by {
            assert(tracking@[a].0@ != tracking@[b].0@);
        }
        law_branches_are_found_wherever_they_stand(list, branch);
        if 0 <= k < tracking@.len() && tracking@[k].0@ == branch {
            assert(list[k].0 == branch);
            assert(recorded(list, branch) == Some(tracking@[k].1));
        } else {
            assert forall|i: int| 0 <= i < list.len() implies (#[trigger] list[i]).0 != branch by {
                assert(tracking@[i].0@ != branch);
            }
            assert(recorded(list, branch) is None);
        }
    }
}

// --- which worktrees ----------------------------------------------------------

/// A worktree that is neither the main one nor around the place the command was
/// started in.
pub open spec fn elsewhere(repo: Repo, worktree: Worktree) -> bool {
    !same_place(worktree.path.bytes@, repo.main.bytes@) && !within(
        repo.cwd.bytes@,
        worktree.path.bytes@,
    )
}

/// One worktree more at the end of the list is one more to offer, at the end,
/// exactly when it lies elsewhere; and the first of the list never is one.
pub proof fn law_every_worktree_elsewhere_is_offered(
    repo: &Repo,
    list: &Vec<Worktree>,
    longer: &Vec<Worktree>,
    r: Result<Vec<Worktree>, String>,
    s: Result<Vec<Worktree>, String>,
)
    requires
        call_ensures(removable, (repo, list), r),
        call_ensures(removable, (repo, longer), s),
        longer@.len() == list@.len() + 1,
        forall|i: int| 0 <= i < list@.len() ==> (#[trigger] longer@[i])@ == list@[i]@,
    ensures
        list@.len() == 0 ==> (r matches Err(line) && line@ == "no worktrees found"@),
        list@.len() == 0 ==> (s matches Ok(offered) && offered@.len() == 0),
        list@.len() > 0 ==> ({
            let more = elsewhere(*repo, longer@[list@.len() as int]);
            &&& r matches Ok(before)
            &&& s matches Ok(after)
            &&& after@.len() == before@.len() + if more {
                1int
            } else {
                0
            }
            &&& forall|i: int| 0 <= i < before@.len() ==> (#[trigger] after@[i])@ == before@[i]@
            &&& more ==> after@[before@.len() as int]@ == longer@[list@.len() as int]@
        }),
{
    let goes = |w: WorktreeModel| blocker(repo@, w, true, None) is None;
    let all = models(longer@).skip(1);
    reveal(Seq::filter);
    if list@.len() == 0 {
        assert(all =~= Seq::<WorktreeModel>::empty());
        assert(models(s->Ok_0@).len() == s->Ok_0@.len());
    } else {
        let last = longer@[list@.len() as int];
        assert(all.drop_last() =~= models(list@).skip(1));
        assert(all.last() == last@);
        let before = r->Ok_0;
        let after = s->Ok_0;
        assert(models(before@).len() == before@.len());
        assert(models(after@).len() == after@.len());
        assert forall|i: int| 0 <= i < before@.len() implies (#[trigger] after@[i])@
            == before@[i]@ by {
            assert(models(after@)[i] == after@[i]@);
            assert(models(before@)[i] == before@[i]@);
        }
        if elsewhere(*repo, last) {
            assert(models(after@)[before@.len() as int] == after@[before@.len() as int]@);
        }
    }
}

/// One worktree more makes one candidate more, described by its own answers, or
/// none where its questions came to nothing.
pub proof fn law_every_answer_makes_a_candidate(
    worktrees: &Vec<Worktree>,
    answers: &Vec<Option<Answers>>,
    more_worktrees: &Vec<Worktree>,
    more_answers: &Vec<Option<Answers>>,
    tracking: &Vec<(String, Tracking)>,
    r: Vec<Candidate>,
    s: Vec<Candidate>,
    one: Candidate,
)
    requires
        call_ensures(candidates, (worktrees, answers, tracking), r),
        call_ensures(candidates, (more_worktrees, more_answers, tracking), s),
        worktrees@.len() == answers@.len(),
        more_worktrees@.len() == worktrees@.len() + 1,
        more_answers@.len() == answers@.len() + 1,
        forall|i: int|
            0 <= i < worktrees@.len() ==> (#[trigger] more_worktrees@[i])@ == worktrees@[i]@,
        forall|i: int| 0 <= i < answers@.len() ==> #[trigger] more_answers@[i] == answers@[i],
        more_answers@[answers@.len() as int] matches Some(a) ==> call_ensures(
            describe,
            (&more_worktrees@[worktrees@.len() as int], &a, tracking),
            one,
        ),
    ensures
        worktrees@.len() == 0 ==> r@.len() == 0,
        s@.len() == r@.len() + if more_answers@[answers@.len() as int] is Some {
            1int
        } else {
            0
        },
        forall|i: int| 0 <= i < r@.len() ==> (#[trigger] s@[i])@ == r@[i]@,
        more_answers@[answers@.len() as int] is Some ==> s@[r@.len() as int]@ == one@,
{
    let wts = models(more_worktrees@);
    let ans = answer_models(more_answers@);
    assert(wts.drop_last() =~= models(worktrees@));
    assert(ans.drop_last() =~= answer_models(answers@));
    assert(wts.last() == more_worktrees@[worktrees@.len() as int]@);
    assert(candidate_models(r@).len() == r@.len());
    assert(candidate_models(s@).len() == s@.len());
    assert forall|i: int| 0 <= i < r@.len() implies (#[trigger] s@[i])@ == r@[i]@ by {
        assert(candidate_models(s@)[i] == s@[i]@);
        assert(candidate_models(r@)[i] == r@[i]@);
    }
    if more_answers@[answers@.len() as int] is Some {
        assert(candidate_models(s@)[r@.len() as int] == s@[r@.len() as int]@);
    }
}

// --- the table ----------------------------------------------------------------

/// `text` stands in `line` from column `at` on.
pub open spec fn stands_at(line: Seq<char>, at: int, text: Seq<char>) -> bool {
    0 <= at && at + text.len() <= line.len() && line.subrange(at, at + text.len()) == text
}

/// Nothing but spaces from one column up to another.
pub open spec fn blank_between(line: Seq<char>, from: int, to: int) -> bool {
    0 <= from <= to <= line.len() && all_blank(line.subrange(from, to))
}

/// A line of three columns: two that start where they start in every line, and
/// the rest.
pub open spec fn three_columns(
    line: Seq<char>,
    first: Seq<char>,
    first_width: int,
    second: Seq<char>,
    second_width: int,
    rest: Seq<char>,
) -> bool {
    let middle = first_width + 2;
    let end = middle + second_width + 2;
    &&& line.len() == end + rest.len()
    &&& stands_at(line, 0, first)
    &&& blank_between(line, first.len() as int, middle)
    &&& stands_at(line, middle, second)
    &&& blank_between(line, middle + second.len(), end)
    &&& stands_at(line, end, rest)
}

/// The table has a line of labels and then one line for each candidate: its
/// name, the verdict on it and its note, each in its column, and the columns as
/// wide as they have to be.
pub proof fn law_every_candidate_has_its_line(
    list: &Vec<Candidate>,
    with_branch: bool,
    r: Vec<String>,
    name_width: int,
    verdict_width: int,
    i: int,
    verdict: String,
)
    requires
        call_ensures(table, (list, with_branch), r),
        is_widest(name_width, candidate_names(candidate_models(list@)), "WORKTREE"@),
        is_widest(
            verdict_width,
            candidate_verdicts(candidate_models(list@), with_branch),
            "SAFE TO REMOVE"@,
        ),
        0 <= i < list@.len(),
        call_ensures(State::verdict, (list@[i].state, with_branch), verdict),
    ensures
        r@.len() == list@.len() + 1,
        three_columns(
            r@[0]@,
            "WORKTREE"@,
            name_width,
            "SAFE TO REMOVE"@,
            verdict_width,
            "NOTE"@,
        ),
        three_columns(
            r@[i + 1]@,
            list@[i].name@,
            name_width,
            verdict@,
            verdict_width,
            list@[i].note@,
        ),
{
    let models = candidate_models(list@);
    lemma_widest_is_the_width(name_width, candidate_names(models), "WORKTREE"@);
    lemma_widest_is_the_width(
        verdict_width,
        candidate_verdicts(models, with_branch),
        "SAFE TO REMOVE"@,
    );
    let lines = readings(r@);
    assert(lines.len() == r@.len());
    assert(lines[0] == r@[0]@);
    assert(lines[i + 1] == r@[i + 1]@);
    assert(models[i] == list@[i]@);
    assert(candidate_names(models)[i] == list@[i].name@);
    assert(candidate_verdicts(models, with_branch)[i] == verdict@);
    assert(candidate_names(models)[i].len() <= name_width);
    assert(candidate_verdicts(models, with_branch)[i].len() <= verdict_width);
    lemma_three_columns(
        "WORKTREE"@,
        name_width as nat,
        "SAFE TO REMOVE"@,
        verdict_width as nat,
        "NOTE"@,
    );
    lemma_three_columns(
        list@[i].name@,
        name_width as nat,
        verdict@,
        verdict_width as nat,
        list@[i].note@,
    );
}

/// Parts put together in that order make such a line.
pub proof fn lemma_three_columns(
    first: Seq<char>,
    first_width: nat,
    second: Seq<char>,
    second_width: nat,
    rest: Seq<char>,
)
    requires
        first.len() <= first_width,
        second.len() <= second_width,
    ensures
        three_columns(
            table_line(first, first_width, second, second_width, rest),
            first,
            first_width as int,
            second,
            second_width as int,
            rest,
        ),
{
    reveal_strlit("  ");
    let line = table_line(first, first_width, second, second_width, rest);
    let middle = first_width as int + 2;
    let end = middle + second_width + 2;
    assert(line.subrange(0, first.len() as int) =~= first);
    assert(line.subrange(middle, middle + second.len()) =~= second);
    assert(line.subrange(end, end + rest.len()) =~= rest);
    assert(all_blank(line.subrange(first.len() as int, middle)));
    assert(all_blank(line.subrange(middle + second.len(), end)));
}

// --- the command --------------------------------------------------------------

/// The screen does not open where there is nothing to clean or nobody to ask:
/// the first says so, and the second prints the table instead.
pub proof fn law_when_the_screen_does_not_open(
    list: &Vec<Candidate>,
    terminal: bool,
    with_branch: bool,
    r: Option<Printed>,
    lines: Vec<String>,
)
    requires
        call_ensures(opening, (list, terminal, with_branch), r),
        call_ensures(table, (list, with_branch), lines),
    ensures
        r is None <==> list@.len() > 0 && terminal,
        list@.len() == 0 ==> r->0.out@.len() == 0 && r->0.err@.len() == 1 && r->0.err@[0]@
            == "Nothing to clean: no worktree besides the one you are in."@,
        list@.len() > 0 && !terminal ==> r->0.out@.len() == lines@.len() && (forall|i: int|
            0 <= i < lines@.len() ==> (#[trigger] r->0.out@[i])@ == lines@[i]@)
            && r->0.err@.len() == 2 && r->0.err@[0]@.len() == 0 && r->0.err@[1]@
            == "gwx clean needs a terminal to choose in; nothing was removed."@,
{
    assert(candidate_models(list@).len() == list@.len());
    reveal_strlit("");
    if r is Some {
        let out = readings(r->0.out@);
        let err = readings(r->0.err@);
        assert(out.len() == r->0.out@.len());
        assert(err.len() == r->0.err@.len());
        assert(err[0] == r->0.err@[0]@);
        if list@.len() > 0 {
            assert(err[1] == r->0.err@[1]@);
            assert(readings(lines@).len() == lines@.len());
            assert forall|i: int| 0 <= i < lines@.len() implies (#[trigger] r->0.out@[i])@
                == lines@[i]@ by {
                assert(out[i] == r->0.out@[i]@);
                assert(readings(lines@)[i] == lines@[i]@);
            }
        }
    }
}

/// A selected candidate is left alone exactly when it holds uncommitted changes
/// and nothing was forced. Any other is removed just as the command line says,
/// whatever its state: no removal is forced that was not asked to be, and git
/// is never kept quiet.
pub proof fn law_the_flags_go_through_unchanged(
    candidate: &Candidate,
    index: usize,
    args: CleanArgs,
    r: Planned,
)
    requires
        call_ensures(plan, (candidate, index, args), r),
    ensures
        r is Skip <==> candidate.state == State::Dirty && !args.force,
        r matches Planned::Skip { line } ==> line@ == "Skipped "@ + candidate.name@
            + ": it has uncommitted changes (pass --force)"@,
        r matches Planned::Remove { index: i, opts } ==> i == index && opts.force == args.force
            && opts.with_branch == args.with_branch && opts.no_hooks == args.no_hooks
            && !opts.quiet,
{
}

/// A removal is reported by its path where it went well, and by name and reason
/// where it did not.
pub proof fn law_how_a_removal_is_reported(
    candidate: &Candidate,
    outcome: &Result<(), String>,
    r: String,
)
    requires
        call_ensures(outcome_line, (candidate, outcome), r),
    ensures
        outcome is Ok ==> r@ == "Removed "@ + lossy(candidate.worktree.path.bytes@),
        *outcome matches Err(why) ==> r@ == "Failed to remove "@ + candidate.name@ + ": "@ + why@,
{
}

/// The removals are summed up unless there was exactly one.
pub proof fn law_how_removals_are_summed_up(removed: usize, r: Option<String>)
    requires
        call_ensures(closing, (removed,), r),
    ensures
        r is None <==> removed == 1,
        r matches Some(line) ==> exists|number: Seq<char>|
            reads_as(number, removed as int) && line@ == #[trigger] ("Removed "@ + number
                + " worktrees."@),
{
    lemma_decimal_reads(removed as nat);
    if r is Some {
        assert(closing_text(removed as nat)[0] == r->0@);
        assert(closing_text(removed as nat).len() == 1);
        assert(r->0@ == "Removed "@ + decimal(removed as nat) + " worktrees."@);
    }
}

/// The command starts out with nothing selected, and with what it was given.
pub proof fn law_how_cleaning_begins(
    list: Vec<Candidate>,
    terminal: bool,
    args: CleanArgs,
    r: (Cleaning, Turn),
    said: Option<Printed>,
)
    requires
        call_ensures(run, (list, terminal, args), r),
        call_ensures(opening, (&list, terminal, args.with_branch), said),
    ensures
        r.0.candidates == list,
        r.0.args == args,
        r.0.chosen@.len() == 0 && r.0.at == 0 && r.0.removed == 0,
        said is None <==> r.1.task is Choose,
        said is Some <==> r.1.task is Stop,
        said is None ==> r.1.said.out@.len() == 0 && r.1.said.err@.len() == 0,
        said matches Some(p) ==> readings(r.1.said.out@) == readings(p.out@) && readings(
            r.1.said.err@,
        ) == readings(p.err@),
{
    assert(readings(r.1.said.out@).len() == r.1.said.out@.len());
    assert(readings(r.1.said.err@).len() == r.1.said.err@.len());
}

/// A selected candidate that stays.
pub open spec fn stays(list: Seq<Candidate>, args: CleanArgs, index: usize) -> bool {
    list[index as int].state == State::Dirty && !args.force
}

/// What going on from one selected candidate comes to: everything up to the
/// next that does not stay is named as skipped, in order; that one is removed
/// with the flags of the command line; and at the end the removals are summed
/// up.
pub open spec fn goes_on(
    list: Seq<Candidate>,
    args: CleanArgs,
    chosen: Seq<usize>,
    from: int,
    removed: int,
    lines: Seq<Seq<char>>,
    to: int,
    task: Task,
) -> bool {
    &&& from <= to <= chosen.len()
    &&& forall|k: int|
        from <= k < to ==> stays(list, args, #[trigger] chosen[k]) && lines[k - from]
            == "Skipped "@ + list[chosen[k] as int].name@
            + ": it has uncommitted changes (pass --force)"@
    &&& if to < chosen.len() {
        &&& !stays(list, args, chosen[to])
        &&& lines.len() == to - from
        &&& task matches Task::Remove { index, opts } && index == chosen[to] && opts.force
            == args.force && opts.with_branch == args.with_branch && opts.no_hooks == args.no_hooks
            && !opts.quiet
    } else {
        &&& task is Stop
        &&& lines.len() == to - from + if removed == 1 {
            0int
        } else {
            1
        }
        &&& removed != 1 ==> exists|number: Seq<char>|
            reads_as(number, removed) && lines[to - from] == #[trigger] ("Removed "@ + number
                + " worktrees."@)
    }
}

proof fn lemma_goes_on(
    list: Seq<Candidate>,
    args: CleanArgs,
    chosen: Seq<usize>,
    at: nat,
    removed: nat,
)
    requires
        at <= chosen.len(),
        forall|k: int| 0 <= k < chosen.len() ==> #[trigger] chosen[k] < list.len(),
    ensures
        ({
            let (lines, to, task) = going_on(candidate_models(list), args, chosen, at, removed);
            goes_on(list, args, chosen, at as int, removed as int, lines, to as int, task)
        }),
    decreases chosen.len() - at,
{
    let models = candidate_models(list);
    let (lines, to, task) = going_on(models, args, chosen, at, removed);
    if at >= chosen.len() {
        lemma_decimal_reads(removed);
        if removed != 1 {
            assert(lines[0] == "Removed "@ + decimal(removed) + " worktrees."@);
        }
    } else {
        let index = chosen[at as int];
        assert(models[index as int] == list[index as int]@);
        if stays(list, args, index) {
            lemma_goes_on(list, args, chosen, at + 1, removed);
            let (rest, end, next) = going_on(models, args, chosen, at + 1, removed);
            let line = "Skipped "@ + list[index as int].name@
                + ": it has uncommitted changes (pass --force)"@;
            assert(lines == seq![line] + rest);
            assert forall|k: int| at <= k < to implies stays(list, args, #[trigger] chosen[k])
                && lines[k - at] == "Skipped "@ + list[chosen[k] as int].name@
                + ": it has uncommitted changes (pass --force)"@ by {
                if k > at {
                    assert(lines[k - at] == rest[k - at - 1]);
                }
            }
            if to == chosen.len() && removed != 1 {
                assert(lines[to - at] == rest[to - at - 1]);
            }
        }
    }
}

/// Backing out stops without a word, selecting nothing says so, and a selection
/// is gone through from its first.
pub proof fn law_what_a_selection_leads_to(
    cleaning: &mut Cleaning,
    selection: Option<Vec<usize>>,
    r: Turn,
)
    requires
        call_ensures(Cleaning::chosen, (cleaning, selection), r),
        selection matches Some(list) ==> forall|i: int|
            0 <= i < list@.len() ==> #[trigger] list@[i] < old(cleaning).candidates@.len(),
    ensures
        final(cleaning).candidates == old(cleaning).candidates,
        final(cleaning).args == old(cleaning).args,
        r.said.out@.len() == 0,
        selection is None ==> r.said.err@.len() == 0 && r.task is Stop,
        selection matches Some(list) ==> if list@.len() == 0 {
            r.task is Stop && r.said.err@.len() == 1 && r.said.err@[0]@ == "Nothing selected."@
        } else {
            &&& final(cleaning).chosen@ == list@
            &&& final(cleaning).removed == 0
            &&& goes_on(
                old(cleaning).candidates@,
                old(cleaning).args,
                list@,
                0,
                0,
                readings(r.said.err@),
                final(cleaning).at as int,
                r.task,
            )
        },
{
    let err = readings(r.said.err@);
    assert(readings(r.said.out@).len() == r.said.out@.len());
    assert(err.len() == r.said.err@.len());
    if let Some(list) = selection {
        if list@.len() == 0 {
            assert(err[0] == r.said.err@[0]@);
        } else {
            lemma_goes_on(old(cleaning).candidates@, old(cleaning).args, list@, 0, 0);
        }
    }
}

/// A report on one removal counts it if it went well, says how it went, and
/// goes on to the next selected candidate either way.
pub proof fn law_what_a_report_leads_to(
    cleaning: &mut Cleaning,
    outcome: &Result<(), String>,
    r: Turn,
    line: String,
)
    requires
        old(cleaning).at < old(cleaning).chosen@.len(),
        forall|i: int|
            0 <= i < old(cleaning).chosen@.len() ==> #[trigger] old(cleaning).chosen@[i] < old(
                cleaning,
            ).candidates@.len(),
        call_ensures(Cleaning::removed, (cleaning, outcome), r),
        call_ensures(
            outcome_line,
            (
                &old(cleaning).candidates@[old(cleaning).chosen@[old(cleaning).at as int] as int],
                outcome,
            ),
            line,
        ),
    ensures
        final(cleaning).candidates == old(cleaning).candidates,
        final(cleaning).args == old(cleaning).args,
        final(cleaning).chosen@ == old(cleaning).chosen@,
        final(cleaning).removed == old(cleaning).removed + if outcome is Ok {
            1int
        } else {
            0
        },
        r.said.out@.len() == 0,
        r.said.err@.len() > 0,
        r.said.err@[0]@ == line@,
        goes_on(
            old(cleaning).candidates@,
            old(cleaning).args,
            old(cleaning).chosen@,
            old(cleaning).at + 1,
            final(cleaning).removed as int,
            readings(r.said.err@).skip(1),
            final(cleaning).at as int,
            r.task,
        ),
{
    let err = readings(r.said.err@);
    assert(readings(r.said.out@).len() == r.said.out@.len());
    assert(err.len() == r.said.err@.len());
    assert(err[0] == r.said.err@[0]@);
    lemma_goes_on(
        old(cleaning).candidates@,
        old(cleaning).args,
        old(cleaning).chosen@,
        (old(cleaning).at + 1) as nat,
        final(cleaning).removed as nat,
    );
    let lines = going_on(
        candidate_models(old(cleaning).candidates@),
        old(cleaning).args,
        old(cleaning).chosen@,
        (old(cleaning).at + 1) as nat,
        final(cleaning).removed as nat,
    ).0;
    assert(err.skip(1) =~= lines);
}

/// A column is measured by its own texts, one for each candidate.
pub proof fn law_what_columns_are_measured_by(
    list: &Vec<Candidate>,
    with_branch: bool,
    names: Vec<String>,
    verdicts: Vec<String>,
    i: int,
    verdict: String,
)
    requires
        call_ensures(names_of, (list,), names),
        call_ensures(verdicts_of, (list, with_branch), verdicts),
        0 <= i < list@.len(),
        call_ensures(State::verdict, (list@[i].state, with_branch), verdict),
    ensures
        names@.len() == list@.len(),
        verdicts@.len() == list@.len(),
        names@[i]@ == list@[i].name@,
        verdicts@[i]@ == verdict@,
{
    let models = candidate_models(list@);
    assert(readings(names@).len() == names@.len());
    assert(readings(names@)[i] == names@[i]@);
    assert(readings(verdicts@)[i] == verdicts@[i]@);
    assert(models[i] == list@[i]@);
    assert(candidate_names(models)[i] == list@[i].name@);
    assert(candidate_verdicts(models, with_branch)[i] == verdict@);
}

} // verus!
