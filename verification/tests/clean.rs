//! What `gwx clean` makes of each worktree.

use gwx::commands::clean::{
    candidates, classify, closing, opening, outcome_line, plan, removable, run, table, Answers,
    Candidate, CleanArgs, Planned, State, Task,
};
use gwx::git::{Merged, Repo, Tracking, Worktree};
use gwx::path::FilePath;

#[test]
fn uncommitted_changes_outrank_everything() {
    // Merged and pushed, but the edits in the working tree are the only
    // thing here that a removal could destroy.
    let (state, note) = classify(true, Merged::Commits, Tracking::Pushed);
    assert_eq!(state, State::Dirty);
    assert!(note.contains("uncommitted"));
}

#[test]
fn a_squash_merge_is_done_too_and_says_which_kind() {
    // The commits are unreachable from HEAD and the work is on it, which
    // is what a squash or rebase merge leaves behind. Ticking the row is
    // the whole point; the note is there to say why gwx believes it.
    let (state, note) = classify(false, Merged::Changes, Tracking::Gone);
    assert_eq!(state, State::Done);
    assert!(state.preselected());
    assert!(note.contains("squash or rebase"), "{note}");
}

#[test]
fn only_merged_and_clean_is_preselected() {
    assert!(classify(false, Merged::Commits, Tracking::Pushed)
        .0
        .preselected());
    assert!(!classify(false, Merged::New, Tracking::Untracked)
        .0
        .preselected());
    for track in [Tracking::Pushed, Tracking::Ahead(2), Tracking::Gone] {
        assert!(!classify(false, Merged::No, track).0.preselected());
    }
    assert!(!classify(true, Merged::Commits, Tracking::Pushed)
        .0
        .preselected());
}

#[test]
fn an_unmerged_branch_is_told_apart_by_its_upstream() {
    assert_eq!(
        classify(false, Merged::No, Tracking::Pushed).0,
        State::Pushed,
        "everything is on the remote"
    );
    assert_eq!(
        classify(false, Merged::No, Tracking::Ahead(3)).0,
        State::Local
    );
    assert_eq!(
        classify(false, Merged::No, Tracking::Untracked).0,
        State::Local
    );
    assert_eq!(classify(false, Merged::No, Tracking::Gone).0, State::Local);
}

#[test]
fn the_verdict_answers_before_it_classifies() {
    assert_eq!(State::Done.verdict(false), "yes");
    assert_eq!(State::Pushed.verdict(false), "yes (pushed)");
    assert_eq!(State::Local.verdict(false), "yes (local)");
    assert_eq!(State::Dirty.verdict(false), "no (dirty)");
}

#[test]
fn taking_the_branch_too_makes_local_commits_unsafe() {
    // The worktree alone loses nothing; the branch is what holds the
    // commits that are on no remote.
    assert_eq!(State::Local.verdict(true), "no (local)");
    assert_eq!(State::Pushed.verdict(true), "yes (pushed)");
    assert_eq!(State::Done.verdict(true), "yes");
}

#[test]
fn the_note_says_how_many_commits_are_at_stake() {
    let (_, note) = classify(false, Merged::No, Tracking::Ahead(3));
    assert!(note.contains('3'), "{note}");
}

// --- the notes, word for word ---------------------------------------

#[test]
fn every_state_has_its_sentence() {
    let notes = [
        (true, Merged::No, Tracking::Gone, State::Dirty, "uncommitted changes would be lost"),
        (
            false,
            Merged::Commits,
            Tracking::Gone,
            State::Done,
            "merged into HEAD, nothing uncommitted",
        ),
        (
            false,
            Merged::Changes,
            Tracking::Gone,
            State::Done,
            "squash or rebase merged into HEAD, nothing uncommitted",
        ),
        (false, Merged::New, Tracking::Pushed, State::Local, "new branch, no commits yet"),
        (
            false,
            Merged::No,
            Tracking::Pushed,
            State::Pushed,
            "not merged; every commit is on its upstream",
        ),
        (
            false,
            Merged::No,
            Tracking::Ahead(12),
            State::Local,
            "12 commit(s) not on its upstream",
        ),
        (
            false,
            Merged::No,
            Tracking::Gone,
            State::Local,
            "its upstream is gone from the remote",
        ),
        (
            false,
            Merged::No,
            Tracking::Untracked,
            State::Local,
            "never pushed; it has no upstream",
        ),
    ];
    for (dirty, merged, track, state, note) in notes {
        assert_eq!(classify(dirty, merged, track), (state, note.to_string()));
    }
}

#[test]
fn labels_are_the_words_in_brackets() {
    assert_eq!(State::Done.label(), "done");
    assert_eq!(State::Pushed.label(), "pushed");
    assert_eq!(State::Local.label(), "local");
    assert_eq!(State::Dirty.label(), "dirty");
}

// --- which worktrees are offered ------------------------------------

fn worktree(path: &str, branch: Option<&str>) -> Worktree {
    Worktree {
        path: FilePath::from_text(path),
        head: None,
        branch: branch.map(str::to_string),
        bare: false,
        detached: branch.is_none(),
        locked: false,
        prunable: false,
    }
}

fn repo(cwd: &str) -> Repo {
    Repo {
        cwd: FilePath::from_text(cwd),
        main: FilePath::from_text("/repo"),
    }
}

fn all() -> Vec<Worktree> {
    vec![
        worktree("/repo", Some("main")),
        worktree("/wt/auth", Some("auth")),
        worktree("/wt/loose", None),
    ]
}

fn answers(name: &str, dirty: Option<bool>, merged: Merged) -> Option<Answers> {
    Some(Answers {
        name: name.to_string(),
        dirty,
        merged,
    })
}

#[test]
fn neither_the_main_worktree_nor_yours_is_offered() {
    let offered = removable(&repo("/wt/auth/src"), &all()).unwrap();
    let paths: Vec<String> = offered.iter().map(|w| w.path.display()).collect();
    assert_eq!(paths, ["/wt/loose"]);

    let offered = removable(&repo("/repo"), &all()).unwrap();
    assert_eq!(offered.len(), 2);
}

#[test]
fn a_repository_without_worktrees_is_an_error() {
    assert_eq!(
        removable(&repo("/repo"), &Vec::new()).unwrap_err(),
        "no worktrees found"
    );
}

#[test]
fn candidates_are_described_by_their_own_branch() {
    let offered = removable(&repo("/repo"), &all()).unwrap();
    let tracking = vec![("auth".to_string(), Tracking::Ahead(3))];
    let list = candidates(
        &offered,
        &vec![
            answers("auth", None, Merged::No),
            answers("loose", Some(false), Merged::Commits),
        ],
        &tracking,
    );
    assert_eq!(list[0].name, "auth");
    assert_eq!(list[0].state, State::Local);
    assert_eq!(list[0].note, "3 commit(s) not on its upstream");
    // Without a branch there is nothing that could be merged or pushed.
    assert_eq!(list[1].state, State::Local);
    assert_eq!(list[1].note, "never pushed; it has no upstream");
}

#[test]
fn a_branch_is_found_wherever_it_is_listed() {
    let offered = vec![worktree("/wt/auth", Some("auth"))];
    let mut tracking = vec![
        ("auth".to_string(), Tracking::Pushed),
        ("other".to_string(), Tracking::Gone),
        ("third".to_string(), Tracking::Ahead(1)),
    ];
    for _ in 0..3 {
        let found = candidates(
            &offered,
            &vec![answers("auth", Some(false), Merged::No)],
            &tracking,
        );
        assert_eq!(found[0].state, State::Pushed);
        tracking.rotate_left(1);
    }
}

#[test]
fn a_worker_that_never_answered_leaves_no_row() {
    let offered = removable(&repo("/repo"), &all()).unwrap();
    let list = candidates(
        &offered,
        &vec![None, answers("loose", Some(true), Merged::No)],
        &Vec::new(),
    );
    assert_eq!(list.len(), 1);
    assert_eq!(list[0].name, "loose");
    assert_eq!(list[0].state, State::Dirty);
}

// --- the command around the screen ----------------------------------

fn candidate(name: &str, state: State, note: &str) -> Candidate {
    Candidate {
        worktree: worktree(&format!("/wt/{name}"), Some(name)),
        name: name.to_string(),
        state,
        note: note.to_string(),
    }
}

fn list() -> Vec<Candidate> {
    vec![
        candidate("auth", State::Done, "merged"),
        candidate("long/branch", State::Local, "local"),
        candidate("wip", State::Dirty, "edits"),
    ]
}

#[test]
fn without_a_terminal_the_table_is_printed_and_nothing_goes() {
    assert_eq!(
        table(&list(), false),
        [
            "WORKTREE     SAFE TO REMOVE  NOTE",
            "auth         yes             merged",
            "long/branch  yes (local)     local",
            "wip          no (dirty)      edits",
        ]
    );
    let said = opening(&list(), false, true).expect("nobody can tick the boxes");
    assert_eq!(said.out, table(&list(), true));
    assert_eq!(
        said.err,
        [
            "",
            "gwx clean needs a terminal to choose in; nothing was removed.",
        ]
    );
    assert!(opening(&list(), true, false).is_none());
}

#[test]
fn with_nothing_to_clean_that_is_all_it_says() {
    for terminal in [true, false] {
        let said = opening(&Vec::new(), terminal, false).expect("nothing to choose from");
        assert!(said.out.is_empty());
        assert_eq!(
            said.err,
            ["Nothing to clean: no worktree besides the one you are in."]
        );
    }
}

const CAREFUL: CleanArgs = CleanArgs {
    with_branch: true,
    force: false,
    no_hooks: true,
};

const FORCED: CleanArgs = CleanArgs {
    with_branch: false,
    force: true,
    no_hooks: false,
};

#[test]
fn the_screen_opens_only_where_somebody_can_choose() {
    let (_, turn) = run(list(), true, CAREFUL);
    assert!(matches!(turn.task, Task::Choose));
    assert!(turn.said.out.is_empty() && turn.said.err.is_empty());

    let (_, turn) = run(list(), false, CAREFUL);
    assert!(matches!(turn.task, Task::Stop));
    assert_eq!(turn.said.out, table(&list(), true));
    assert_eq!(turn.said.err.len(), 2);

    let (_, turn) = run(Vec::new(), true, CAREFUL);
    assert!(matches!(turn.task, Task::Stop));
}

#[test]
fn backing_out_is_silent_and_an_empty_choice_is_not() {
    let (mut cleaning, _) = run(list(), true, CAREFUL);
    let turn = cleaning.chosen(None);
    assert!(turn.said.err.is_empty());
    assert!(matches!(turn.task, Task::Stop));

    let (mut cleaning, _) = run(list(), true, CAREFUL);
    let turn = cleaning.chosen(Some(Vec::new()));
    assert_eq!(turn.said.err, ["Nothing selected."]);
    assert!(matches!(turn.task, Task::Stop));
}

#[test]
fn uncommitted_work_is_skipped_unless_forced() {
    match plan(&list()[0], 0, CAREFUL) {
        Planned::Remove { index, opts } => {
            assert_eq!(index, 0);
            assert!(!opts.force && opts.with_branch && !opts.quiet && opts.no_hooks);
        }
        other => panic!("a finished worktree goes: {other:?}"),
    }
    match plan(&list()[2], 2, CAREFUL) {
        Planned::Skip { line } => assert_eq!(
            line,
            "Skipped wip: it has uncommitted changes (pass --force)"
        ),
        other => panic!("uncommitted work stays: {other:?}"),
    }
    match plan(&list()[2], 2, FORCED) {
        Planned::Remove { index, opts } => {
            assert_eq!(index, 2);
            assert!(opts.force && !opts.with_branch && !opts.quiet && !opts.no_hooks);
        }
        other => panic!("force takes it: {other:?}"),
    }
}

#[test]
fn each_removal_says_how_it_went_and_the_end_counts_them() {
    let wip = candidate("wip", State::Dirty, "edits");
    assert_eq!(outcome_line(&wip, &Ok(())), "Removed /wt/wip");
    assert_eq!(
        outcome_line(&wip, &Err("git said no".to_string())),
        "Failed to remove wip: git said no"
    );
    assert_eq!(closing(0).unwrap(), "Removed 0 worktrees.");
    assert_eq!(closing(1), None);
    assert_eq!(closing(2).unwrap(), "Removed 2 worktrees.");
}

/// Everything a selection leads to, with the removals at these indices failing.
fn course(args: CleanArgs, selection: Vec<usize>, failing: &[usize]) -> (Vec<usize>, Vec<String>) {
    let (mut cleaning, _) = run(list(), true, args);
    let mut turn = cleaning.chosen(Some(selection));
    let mut tried = Vec::new();
    let mut said = Vec::new();
    loop {
        said.extend(turn.said.err);
        turn = match turn.task {
            Task::Remove { index, .. } => {
                tried.push(index);
                if failing.contains(&index) {
                    cleaning.removed(&Err("no".to_string()))
                } else {
                    cleaning.removed(&Ok(()))
                }
            }
            _ => return (tried, said),
        };
    }
}

#[test]
fn one_failure_does_not_strand_the_rest() {
    let (tried, said) = course(FORCED, vec![0, 1, 2], &[0]);
    assert_eq!(tried, [0, 1, 2]);
    assert_eq!(
        said,
        [
            "Failed to remove auth: no",
            "Removed /wt/long/branch",
            "Removed /wt/wip",
            "Removed 2 worktrees.",
        ]
    );
}

#[test]
fn skipped_worktrees_are_named_where_they_come() {
    let (tried, said) = course(CAREFUL, vec![2, 0], &[]);
    assert_eq!(tried, [0]);
    assert_eq!(
        said,
        [
            "Skipped wip: it has uncommitted changes (pass --force)",
            "Removed /wt/auth",
        ]
    );
    let (tried, said) = course(CAREFUL, vec![2], &[]);
    assert!(tried.is_empty());
    assert_eq!(
        said,
        [
            "Skipped wip: it has uncommitted changes (pass --force)",
            "Removed 0 worktrees.",
        ]
    );
}
