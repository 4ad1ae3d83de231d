//! `gwx remove`: what it refuses, what it does in which order, and what it says.

use gwx::commands::remove::{
    farewell, needs_status, refusal, removal_blocker, remove_worktree, Action, Phase, Removal,
    RemoveOptions, Report, Reporting, Stage,
};
use gwx::git::{Merged, Repo, Worktree};
use gwx::path::FilePath;

fn worktree(path: &str, branch: Option<&str>) -> Worktree {
    Worktree {
        path: FilePath::from_text(path),
        head: None,
        branch: branch.map(str::to_string),
        bare: false,
        detached: branch.is_none(),
        locked: false,
        prunable: false,
    }
}

fn repo(cwd: &str) -> Repo {
    Repo {
        cwd: FilePath::from_text(cwd),
        main: FilePath::from_text("/repo"),
    }
}

fn options(force: bool, with_branch: bool) -> RemoveOptions {
    RemoveOptions {
        force,
        with_branch,
        ..RemoveOptions::default()
    }
}

#[test]
fn the_defaults_are_the_careful_ones() {
    let opts = RemoveOptions::default();
    assert!(!opts.force && !opts.with_branch && !opts.quiet && !opts.no_hooks);
}

#[test]
fn a_removal_is_blocked_for_the_first_reason_there_is() {
    let auth = worktree("/wt/auth", Some("auth"));
    let main = worktree("/repo", Some("main"));
    let mut broken = worktree("/wt/broken", Some("broken"));
    broken.prunable = true;

    assert_eq!(
        removal_blocker(&repo("/repo"), &main, true, None).unwrap(),
        "this is the main worktree"
    );
    assert_eq!(
        removal_blocker(&repo("/wt/auth/src"), &auth, true, Some(true)).unwrap(),
        "you are inside this worktree"
    );
    assert_eq!(
        removal_blocker(&repo("/repo"), &broken, false, Some(true)).unwrap(),
        "its checkout is broken and gwx cannot tell whether it holds uncommitted work; pass --force to delete it anyway"
    );
    assert_eq!(
        removal_blocker(&repo("/repo"), &auth, false, Some(true)).unwrap(),
        "it has uncommitted changes"
    );
    assert_eq!(removal_blocker(&repo("/repo"), &auth, false, Some(false)), None);
    // A status git could not give is no reason to refuse.
    assert_eq!(removal_blocker(&repo("/repo"), &auth, false, None), None);
    assert_eq!(removal_blocker(&repo("/repo"), &auth, true, Some(true)), None);
    assert_eq!(removal_blocker(&repo("/repo"), &broken, true, None), None);
}

#[test]
fn a_sibling_with_a_longer_name_is_not_where_you_are() {
    let auth = worktree("/wt/auth", Some("auth"));
    assert_eq!(removal_blocker(&repo("/wt/auth2"), &auth, false, None), None);
}

#[test]
fn git_is_asked_for_a_status_only_where_it_decides() {
    let auth = worktree("/wt/auth", Some("auth"));
    let mut broken = auth.clone();
    broken.prunable = true;
    assert!(needs_status(&repo("/repo"), &auth, false));
    assert!(!needs_status(&repo("/repo"), &auth, true));
    assert!(!needs_status(&repo("/wt/auth"), &auth, false));
    assert!(!needs_status(&repo("/repo"), &broken, false));
    assert!(!needs_status(&repo("/repo"), &worktree("/repo", None), false));
}

#[test]
fn the_command_has_its_own_words_for_a_refusal() {
    let auth = worktree("/wt/auth", Some("auth"));
    assert_eq!(
        refusal(&repo("/repo"), &worktree("/repo", None), true, None).unwrap(),
        "refusing to remove the main worktree"
    );
    assert_eq!(
        refusal(&repo("/wt/auth"), &auth, true, None).unwrap(),
        "you are inside /wt/auth. Move out of it first (try `gwx cd @`)"
    );
    assert_eq!(
        refusal(&repo("/repo"), &auth, false, Some(true)).unwrap(),
        "/wt/auth has uncommitted changes. Commit them or pass --force"
    );
    assert_eq!(refusal(&repo("/repo"), &auth, true, Some(true)), None);
    assert_eq!(refusal(&repo("/repo"), &auth, false, None), None);
}

/// Everything a removal asked for, and how it ended.
fn course(start: (Removal, Action), reports: &[Report]) -> (Vec<String>, Removal) {
    let (mut removal, mut action) = start;
    let mut said = Vec::new();
    let mut reports = reports.iter();
    loop {
        match &action {
            Action::RunHooks { phase, reporting } => {
                said.push(format!("hooks {phase:?} {reporting:?}"))
            }
            Action::DeleteDirectory { path } => said.push(format!("delete {}", path.display())),
            Action::RunGit { args, quiet } => said.push(format!("git {} {quiet}", args.join(" "))),
            Action::ReadMerged { branch } => said.push(format!("merged? {branch}")),
            Action::Finish => said.push("finish".to_string()),
            Action::Fail { lines, caused } => {
                said.push(format!("fail {} {caused}", lines.join(" / ")))
            }
        }
        if removal.stage == Stage::Over {
            return (said, removal);
        }
        action = removal.advance(*reports.next().expect("a report for every step"));
    }
}

fn start(wt: &Worktree, opts: RemoveOptions) -> (Removal, Action) {
    remove_worktree(&repo("/repo"), wt, "auth", opts, Some(false))
}

#[test]
fn hooks_bracket_the_whole_removal() {
    let auth = worktree("/wt/auth", Some("auth"));
    let (said, _) = course(
        start(&auth, options(false, true)),
        &[
            Report::Done,
            Report::Done,
            Report::Merged(Merged::Commits),
            Report::Done,
            Report::Done,
        ],
    );
    assert_eq!(
        said,
        [
            "hooks PreRemove Announce",
            "git worktree remove -- /wt/auth false",
            "merged? auth",
            "git branch -d -- auth false",
            "hooks PostRemove Announce",
            "finish",
        ]
    );
}

#[test]
fn a_quiet_removal_captures_what_hooks_and_git_print() {
    let auth = worktree("/wt/auth", Some("auth"));
    let opts = RemoveOptions {
        force: true,
        with_branch: false,
        quiet: true,
        no_hooks: false,
    };
    let (said, _) = course(start(&auth, opts), &[Report::Done; 3]);
    assert_eq!(
        said,
        [
            "hooks PreRemove Captured",
            "git worktree remove --force -- /wt/auth true",
            "hooks PostRemove Captured",
            "finish",
        ]
    );
    assert_ne!(Reporting::Captured, Reporting::Announce);
    assert_ne!(Phase::PreRemove, Phase::PostRemove);
}

#[test]
fn without_hooks_git_is_all_that_runs() {
    let auth = worktree("/wt/auth", Some("auth"));
    let opts = RemoveOptions {
        no_hooks: true,
        ..RemoveOptions::default()
    };
    let (said, _) = course(start(&auth, opts), &[Report::Done]);
    assert_eq!(said, ["git worktree remove -- /wt/auth false", "finish"]);
}

#[test]
fn a_refused_removal_touches_nothing() {
    let main = worktree("/repo", Some("main"));
    let (said, _) = course(start(&main, options(true, true)), &[]);
    assert_eq!(
        said,
        ["fail cannot remove /repo: this is the main worktree false"]
    );
}

#[test]
fn a_failing_pre_remove_hook_keeps_the_worktree() {
    let auth = worktree("/wt/auth", Some("auth"));
    let (said, _) = course(start(&auth, options(true, true)), &[Report::Failed]);
    assert_eq!(said, ["hooks PreRemove Announce", "fail  true"]);
}

#[test]
fn a_broken_checkout_loses_its_directory_before_its_record() {
    let mut broken = worktree("/wt/auth", Some("auth"));
    broken.prunable = true;
    for report in [Report::Done, Report::Missing] {
        let (said, _) = course(
            start(&broken, options(true, false)),
            &[Report::Done, report, Report::Done, Report::Done],
        );
        assert_eq!(
            said,
            [
                "hooks PreRemove Announce",
                "delete /wt/auth",
                "git worktree remove --force -- /wt/auth false",
                "hooks PostRemove Announce",
                "finish",
            ]
        );
    }
    let (said, _) = course(
        start(&broken, options(true, false)),
        &[Report::Done, Report::Failed],
    );
    assert_eq!(said[2], "fail failed to delete /wt/auth true");
}

#[test]
fn a_broken_checkout_with_its_branch_takes_every_step_once() {
    let mut broken = worktree("/wt/auth", Some("auth"));
    broken.prunable = true;
    let (said, _) = course(
        start(&broken, options(true, true)),
        &[
            Report::Done,
            Report::Missing,
            Report::Done,
            Report::Merged(Merged::No),
            Report::Done,
            Report::Done,
        ],
    );
    assert_eq!(
        said,
        [
            "hooks PreRemove Announce",
            "delete /wt/auth",
            "git worktree remove --force -- /wt/auth false",
            "merged? auth",
            "git branch -D -- auth false",
            "hooks PostRemove Announce",
            "finish",
        ]
    );
}

#[test]
fn an_unmerged_branch_is_kept_and_says_what_went() {
    let auth = worktree("/wt/auth", Some("auth"));
    let reports = [Report::Done, Report::Done, Report::Merged(Merged::No)];
    let (said, _) = course(start(&auth, options(false, true)), &reports);
    assert_eq!(
        said.last().unwrap(),
        "fail the worktree at /wt/auth was removed, but branch `auth` is not merged into HEAD of the main worktree and was kept; pass --force to delete it too false"
    );
}

#[test]
fn a_squash_merged_or_forced_branch_is_deleted_outright() {
    let auth = worktree("/wt/auth", Some("auth"));
    for (force, merged) in [
        (false, Merged::Changes),
        (false, Merged::New),
        (true, Merged::No),
        (true, Merged::Commits),
    ] {
        let (said, _) = course(
            start(&auth, options(force, true)),
            &[
                Report::Done,
                Report::Done,
                Report::Merged(merged),
                Report::Done,
                Report::Done,
            ],
        );
        assert_eq!(said[3], "git branch -D -- auth false", "{force} {merged:?}");
        assert_eq!(said.last().unwrap(), "finish");
    }
}

#[test]
fn there_may_be_no_branch_to_take() {
    let loose = worktree("/wt/auth", None);
    let (said, _) = course(
        start(&loose, options(false, true)),
        &[Report::Done, Report::Done],
    );
    assert_eq!(
        said.last().unwrap(),
        "fail the worktree at /wt/auth was removed, but it had no branch to remove false"
    );
}

#[test]
fn every_failure_says_how_far_it_got() {
    let auth = worktree("/wt/auth", Some("auth"));
    let merged = Report::Merged(Merged::Commits);

    let (said, _) = course(
        start(&auth, options(false, true)),
        &[Report::Done, Report::Failed],
    );
    assert_eq!(said.last().unwrap(), "fail failed to remove /wt/auth true");

    let (said, _) = course(
        start(&auth, options(false, true)),
        &[Report::Done, Report::Done, Report::Failed],
    );
    assert_eq!(
        said.last().unwrap(),
        "fail the worktree at /wt/auth was removed true"
    );

    let (said, _) = course(
        start(&auth, options(false, true)),
        &[Report::Done, Report::Done, merged, Report::Failed],
    );
    assert_eq!(
        said.last().unwrap(),
        "fail the worktree at /wt/auth was removed / failed to delete branch `auth` true"
    );

    let (said, _) = course(
        start(&auth, options(false, true)),
        &[Report::Done, Report::Done, merged, Report::Done, Report::Failed],
    );
    assert_eq!(
        said.last().unwrap(),
        "fail the worktree at /wt/auth and its branch was already removed true"
    );

    let (said, _) = course(
        start(&auth, options(false, false)),
        &[Report::Done, Report::Done, Report::Failed],
    );
    assert_eq!(
        said.last().unwrap(),
        "fail the worktree at /wt/auth was already removed true"
    );
}

#[test]
fn hooks_are_told_what_is_going() {
    let (removal, _) = start(&worktree("/wt/auth", Some("feature/auth")), options(false, false));
    let told = removal.hook_context();
    assert_eq!(told.main_worktree.display(), "/repo");
    assert_eq!(told.worktree_path.display(), "/wt/auth");
    assert_eq!(told.name, "auth");
    assert_eq!(told.branch, "feature/auth");

    let (removal, _) = start(&worktree("/wt/auth", None), options(false, false));
    assert_eq!(removal.hook_context().branch, "");
}

#[test]
fn a_finished_removal_is_said_out_loud() {
    let auth = worktree("/wt/auth", Some("feature/auth"));
    assert_eq!(farewell(&auth, false), ["Removed /wt/auth"]);
    assert_eq!(
        farewell(&auth, true),
        ["Removed /wt/auth", "Deleted branch `feature/auth`"]
    );
    assert_eq!(
        farewell(&worktree("/wt/auth", None), true),
        ["Removed /wt/auth"]
    );
}
