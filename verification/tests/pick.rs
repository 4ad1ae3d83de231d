//! The picker as it runs: rows, their status, and removing from the list.

use gwx::commands::list::Entry;
use gwx::commands::remove::{remove_worktree, Action, Report, Stage};
use gwx::git::{Merged, Repo, Worktree};
use gwx::path::FilePath;
use gwx::tui::clean_screen::{choose_to_clean, Choice, Choosing};
use gwx::tui::dialog::{
    confirmed, delete_selected, pending, pending_worktree, remove_picked, DeleteStep, Pending,
    Subject,
};
use gwx::tui::keys::{KeyCode, KeyEvent, KeyEventKind, Reply, CONTROL, NO_MODIFIER};
use gwx::tui::pick::{pick, Event, Next, Picking, Wait};
use gwx::tui::picker::{should_pick, Item, Outcome, Picker};
use gwx::tui::status::{load, note, status_jobs, Arrival, StatusFeed};

/// A repository with a main worktree, and one worktree per branch.
struct Fixture {
    entries: Vec<Entry>,
}

impl Fixture {
    fn new(branches: &[&str]) -> Self {
        let mut entries = vec![entry("@", "/root/repo", "main")];
        for branch in branches {
            entries.push(entry(branch, &format!("/root/worktrees/{branch}"), branch));
        }
        Self { entries }
    }

    fn repo(&self) -> Repo {
        Repo {
            cwd: FilePath::from_text("/root/repo"),
            main: FilePath::from_text("/root/repo"),
        }
    }

    fn load(&self) -> Vec<Item> {
        load(&self.repo().cwd, &self.entries)
    }

    /// Carries a removal out, with git doing as it is told unless the path is
    /// none of its own. Gives back what git was asked to delete.
    fn remove(
        &mut self,
        subject: &Subject,
        with_branch: bool,
    ) -> Result<(Vec<Item>, Vec<Vec<String>>), String> {
        let (_, opts) = confirmed(subject, Reply::Remove { with_branch }).unwrap();
        let (mut removal, mut action) =
            remove_worktree(&self.repo(), &subject.worktree, "x", opts, None);
        let known = self
            .entries
            .iter()
            .position(|e| e.worktree.path.is(&subject.worktree.path));
        let mut asked = Vec::new();
        loop {
            let report = match action {
                Action::Finish => break,
                Action::Fail { lines, caused } => {
                    let mut said = lines.join(": ");
                    if caused {
                        said.push_str(": not a working tree");
                    }
                    return Err(said);
                }
                Action::RunGit { args, .. } => {
                    asked.push(args);
                    match known {
                        Some(_) => Report::Done,
                        None => Report::Failed,
                    }
                }
                Action::ReadMerged { .. } => Report::Merged(Merged::Commits),
                _ => Report::Done,
            };
            action = removal.advance(report);
        }
        assert_eq!(removal.stage, Stage::Over);
        self.entries.remove(known.unwrap());
        Ok((self.load(), asked))
    }
}

fn entry(name: &str, path: &str, branch: &str) -> Entry {
    Entry {
        worktree: Worktree {
            path: FilePath::from_text(path),
            head: Some("abc1234def".to_string()),
            branch: Some(branch.to_string()),
            bare: false,
            detached: false,
            locked: false,
            prunable: false,
        },
        name: name.to_string(),
        head: "abc1234".to_string(),
    }
}

fn key(code: KeyCode) -> KeyEvent {
    KeyEvent::new(code, NO_MODIFIER)
}

// --- the rows and their status --------------------------------------

#[test]
fn the_list_leads_with_the_main_worktree_and_marks_where_you_are() {
    let fixture = Fixture::new(&["feature/auth"]);
    let items = fixture.load();

    assert_eq!(items.len(), 2);
    assert_eq!(items[0].name, "@");
    assert!(items[0].is_main);
    assert!(items[0].is_current, "cwd is the main worktree");
    assert_eq!(items[1].name, "feature/auth");
    assert!(!items[1].is_main);
    assert!(!items[1].is_current);
    // Seven characters of the commit.
    assert_eq!(items[0].head.len(), 7);
    // The status column is filled in later, off the drawing path.
    assert!(items.iter().all(|i| i.note.is_none()));
}

#[test]
fn a_worktree_you_are_standing_in_is_the_current_one() {
    let fixture = Fixture::new(&["feature/auth"]);
    let cwd = FilePath::from_text("/root/worktrees/feature/auth");
    let items = load(&cwd, &fixture.entries);

    assert!(!items[0].is_current);
    assert!(items[1].is_current);
    assert!(load(&cwd, &Vec::new()).is_empty());
}

#[test]
fn only_the_innermost_worktree_is_the_current_one() {
    let entries = vec![
        entry("@", "/repo", "main"),
        entry("x", "/repo/.worktrees/x", "x"),
    ];
    let items = load(&FilePath::from_text("/repo/.worktrees/x"), &entries);
    assert!(items[1].is_current && !items[0].is_current);
    let items = load(&FilePath::from_text("/repo/.worktrees"), &entries);
    assert!(items[0].is_current && !items[1].is_current);
}

#[test]
fn the_status_column_reports_what_removing_would_cost() {
    // A branch off main with no commits of its own is already merged.
    assert_eq!(
        note(Some(false), Some(Merged::New), false, &Vec::new()),
        "merged"
    );
    assert_eq!(
        note(Some(false), Some(Merged::Commits), false, &Vec::new()),
        "merged"
    );
    // Uncommitted work leads, since it is the only thing a removal loses.
    assert_eq!(
        note(
            Some(true),
            Some(Merged::Commits),
            false,
            &vec!["locked".to_string()]
        ),
        "dirty, merged, locked"
    );
    // The main worktree's branch is merged into itself, which says nothing.
    assert_eq!(
        note(Some(false), Some(Merged::Commits), true, &Vec::new()),
        ""
    );
    // A squash merge reads the same here; an unmerged branch says nothing.
    assert_eq!(
        note(None, Some(Merged::Changes), false, &Vec::new()),
        "merged"
    );
    assert_eq!(note(None, Some(Merged::No), false, &Vec::new()), "");
    assert_eq!(note(None, None, false, &Vec::new()), "");
}

#[test]
fn the_status_feed_fills_the_column_in_the_background() {
    let fixture = Fixture::new(&["feature/auth"]);
    let mut items = fixture.load();
    let jobs = status_jobs(&items);
    let mut feed = StatusFeed::new();

    // Nothing yet, and nothing to redraw for.
    assert!(!feed.drain(&Arrival::Empty, &mut items));
    assert!(!feed.is_done(), "the feed finished without reporting");

    let notes: Vec<(usize, String)> = jobs
        .iter()
        .map(|j| {
            let said = note(Some(false), Some(Merged::New), j.is_main, &j.flags);
            (j.index, said)
        })
        .collect();
    assert!(feed.drain(&Arrival::Notes(notes), &mut items));
    assert!(feed.is_done());
    // Drained once and only once; a second call has nothing to redraw for.
    let again = Arrival::Notes(vec![(0, "late".to_string())]);
    assert!(!feed.drain(&again, &mut items));

    // The main worktree is clean and nothing else is worth saying about
    // it, which is an answer — not the absence of one.
    assert_eq!(items[0].note.as_deref(), Some(""));
    assert_eq!(items[1].note.as_deref(), Some("merged"));
}

#[test]
fn workers_that_never_report_leave_the_column_as_it_is() {
    let mut items = Fixture::new(&["feature/auth"]).load();
    let mut feed = StatusFeed::new();
    assert!(!feed.drain(&Arrival::Disconnected, &mut items));
    assert!(feed.is_done());
    assert!(items.iter().all(|i| i.note.is_none()));
}

#[test]
fn a_note_for_a_row_that_is_gone_is_dropped() {
    let mut items = Fixture::new(&[]).load();
    let mut feed = StatusFeed::new();
    let notes = vec![(7, "dirty".to_string()), (0, "locked".to_string())];
    assert!(feed.drain(&Arrival::Notes(notes), &mut items));
    assert_eq!(items[0].note.as_deref(), Some("locked"));
}

#[test]
fn a_worker_that_panicked_leaves_only_its_own_row_waiting() {
    let mut items = Fixture::new(&["a", "b", "c"]).load();
    let mut feed = StatusFeed::new();
    let notes = vec![
        (3, "dirty".to_string()),
        (0, String::new()),
        (2, "merged".to_string()),
    ];
    assert!(feed.drain(&Arrival::Notes(notes), &mut items));
    let shown: Vec<Option<&str>> = items.iter().map(|i| i.note.as_deref()).collect();
    assert_eq!(shown, [Some(""), None, Some("merged"), Some("dirty")]);
    assert_eq!(items[1].name, "a");
}

#[test]
fn jobs_carry_what_a_worker_needs() {
    let mut fixture = Fixture::new(&["feature/auth"]);
    fixture.entries[1].worktree.locked = true;
    let jobs = status_jobs(&fixture.load());
    assert_eq!(jobs.len(), 2);
    assert_eq!(jobs[1].index, 1);
    assert_eq!(jobs[1].path.display(), "/root/worktrees/feature/auth");
    assert_eq!(jobs[1].branch.as_deref(), Some("feature/auth"));
    assert!(jobs[0].is_main && !jobs[1].is_main);
    assert_eq!(jobs[1].flags, ["locked"]);
}

// --- removing from the list -----------------------------------------

#[test]
fn the_dialog_is_not_opened_for_a_worktree_git_would_refuse() {
    let fixture = Fixture::new(&["feature/auth"]);
    let repo = fixture.repo();
    let mut p = Picker::new(fixture.load());

    // The main worktree, and the one you are standing in, cannot go.
    match pending(&repo, &p, Some(false), None) {
        Some(Pending::Blocked(line)) => {
            assert_eq!(line, "cannot remove `@`: this is the main worktree")
        }
        _ => panic!("the main worktree must not reach the dialog"),
    }
    assert!(pending_worktree(&repo, &p).is_none());

    // Nothing selected, nothing to ask about.
    p.filter = "zzz".to_string();
    p.clamp();
    assert!(pending(&repo, &p, Some(false), None).is_none());
    assert!(matches!(delete_selected(None), DeleteStep::Close(None)));
}

#[test]
fn the_dialog_is_told_what_the_removal_would_cost() {
    let fixture = Fixture::new(&["feature/auth"]);
    let repo = fixture.repo();
    let mut p = Picker::new(fixture.load());
    p.cursor = 1;
    let asked = pending_worktree(&repo, &p).expect("git has something to say about it");
    assert_eq!(asked.path.display(), "/root/worktrees/feature/auth");

    let Some(Pending::Ask(subject)) = pending(&repo, &p, Some(false), Some(Merged::New)) else {
        panic!("a removable worktree should reach the dialog")
    };
    assert_eq!(subject.label, "feature/auth");
    assert!(subject.merged, "a branch with no commits of its own");
    assert!(!subject.dirty);

    for merged in [Merged::Commits, Merged::Changes] {
        let Some(Pending::Ask(subject)) = pending(&repo, &p, Some(false), Some(merged)) else {
            panic!("a merged branch is no reason to refuse")
        };
        assert!(subject.merged, "{merged:?}");
    }

    let Some(Pending::Ask(subject)) = pending(&repo, &p, Some(true), Some(Merged::No)) else {
        panic!("uncommitted work is a warning, not a refusal")
    };
    assert!(subject.dirty);
    assert!(!subject.merged);

    // What git cannot say is not held against the worktree.
    let Some(Pending::Ask(subject)) = pending(&repo, &p, None, None) else {
        panic!("silence is not a refusal")
    };
    assert!(!subject.dirty && !subject.merged);
}

fn subject_at(fixture: &Fixture, p: &Picker) -> Subject {
    let found = pending(&fixture.repo(), p, Some(false), Some(Merged::Commits));
    match delete_selected(found) {
        DeleteStep::Confirm(subject) => subject,
        other => panic!("the row should be removable: {other:?}"),
    }
}

#[test]
fn removing_from_the_picker_reloads_the_list_and_says_what_went() {
    let mut fixture = Fixture::new(&["feature/auth", "hotfix"]);
    let mut p = Picker::new(fixture.load());
    p.cursor = 2;
    let subject = subject_at(&fixture, &p);

    let (items, asked) = fixture.remove(&subject, true).unwrap();
    let line = remove_picked(&mut p, &subject, true, Ok(items));
    assert_eq!(line, "removed `hotfix` and its branch");
    assert_eq!(asked.last().unwrap(), &["branch", "-D", "--", "hotfix"]);

    // The list is reloaded, and the cursor pulled back inside it.
    assert_eq!(p.items.len(), 2);
    assert_eq!(p.cursor, 1);
    assert_eq!(p.selected().unwrap().name, "feature/auth");
}

#[test]
fn keeping_the_branch_is_said_out_loud_too() {
    let mut fixture = Fixture::new(&["feature/auth"]);
    let mut p = Picker::new(fixture.load());
    p.cursor = 1;
    let subject = subject_at(&fixture, &p);

    let (items, asked) = fixture.remove(&subject, false).unwrap();
    let line = remove_picked(&mut p, &subject, false, Ok(items));
    assert_eq!(line, "removed `feature/auth`");
    assert!(asked.iter().all(|args| args[0] != "branch"), "{asked:?}");
    assert_eq!(p.items.len(), 1);
}

#[test]
fn a_failed_removal_reports_it_instead_of_ending_the_picker() {
    // The picker is a list you are browsing; a git failure has to land in
    // the status line, not close the screen out from under you.
    let mut fixture = Fixture::new(&["feature/auth"]);
    let mut p = Picker::new(fixture.load());
    p.cursor = 1;
    let mut subject = subject_at(&fixture, &p);
    // A path git knows nothing about: the removal fails, the list stands.
    subject.worktree.path = FilePath::from_text("/root/gone");

    let why = fixture.remove(&subject, false).unwrap_err();
    let line = remove_picked(&mut p, &subject, false, Err(why));
    assert!(
        line.starts_with("failed to remove `feature/auth`:"),
        "{line}"
    );
    assert_eq!(
        line,
        "failed to remove `feature/auth`: failed to remove /root/gone: not a working tree"
    );
    assert_eq!(p.items.len(), 2);
}

#[test]
fn a_blocked_deletion_ends_up_in_the_status_line() {
    let fixture = Fixture::new(&[]);
    let p = Picker::new(fixture.load());
    match delete_selected(pending(&fixture.repo(), &p, None, None)) {
        DeleteStep::Close(Some(line)) => {
            assert_eq!(line, "cannot remove `@`: this is the main worktree")
        }
        other => panic!("nothing to confirm: {other:?}"),
    }
}

#[test]
fn the_answer_decides_what_the_removal_may_do() {
    let fixture = Fixture::new(&["hotfix"]);
    let mut p = Picker::new(fixture.load());
    p.cursor = 1;
    let subject = subject_at(&fixture, &p);
    assert!(confirmed(&subject, Reply::Cancel).is_none());
    for with_branch in [true, false] {
        let (line, opts) = confirmed(&subject, Reply::Remove { with_branch }).unwrap();
        assert_eq!(line, "Removing /root/worktrees/hotfix...");
        // The dialog spelled out the risk, and owns the terminal.
        assert!(opts.force && opts.quiet && !opts.no_hooks);
        assert_eq!(opts.with_branch, with_branch);
    }
}

// --- the loop -------------------------------------------------------

fn open() -> Picking {
    Picking::new(Fixture::new(&["feature/auth", "hotfix"]).load())
}

#[test]
fn a_key_moves_and_enter_finishes() {
    let mut o = open();
    assert!(matches!(pick(&mut o, &Event::Key(key(KeyCode::Down))), Next::Redraw));
    match pick(&mut o, &Event::Key(key(KeyCode::Enter))) {
        Next::Finish(Outcome::Selected(path)) => {
            assert_eq!(path.display(), "/root/worktrees/feature/auth")
        }
        other => panic!("enter chooses: {other:?}"),
    }
    assert!(matches!(
        pick(&mut o, &Event::Key(key(KeyCode::Esc))),
        Next::Finish(Outcome::Cancelled)
    ));
    assert!(matches!(
        pick(&mut o, &Event::Key(KeyEvent::new(KeyCode::Char('d'), CONTROL))),
        Next::Delete
    ));
}

#[test]
fn a_release_and_a_resize_only_redraw() {
    let mut o = open();
    o.message = Some("removed `x`".to_string());
    let mut release = key(KeyCode::Enter);
    release.kind = KeyEventKind::Release;
    assert!(matches!(pick(&mut o, &Event::Key(release)), Next::Redraw));
    assert!(matches!(pick(&mut o, &Event::Terminal), Next::Redraw));
    assert_eq!(o.message.as_deref(), Some("removed `x`"));

    // The next key press takes the message with it.
    pick(&mut o, &Event::Key(key(KeyCode::Down)));
    assert!(o.message.is_none());
}

#[test]
fn status_is_looked_for_until_it_came() {
    let mut o = open();
    assert_eq!(o.next_key(), Wait::KeyOrStatus);
    assert!(matches!(pick(&mut o, &Event::Status(Arrival::Empty)), Next::Wait));
    assert_eq!(o.next_key(), Wait::KeyOrStatus);
    let notes = vec![(1, "dirty".to_string())];
    assert!(matches!(
        pick(&mut o, &Event::Status(Arrival::Notes(notes))),
        Next::Redraw
    ));
    assert_eq!(o.next_key(), Wait::Key);
    assert_eq!(o.picker.items[1].note.as_deref(), Some("dirty"));

    // A deletion reloads the list, so its status is on its way again.
    o.deleted(Some("removed `hotfix`".to_string()));
    assert_eq!(o.next_key(), Wait::KeyOrStatus);
    assert_eq!(o.message.as_deref(), Some("removed `hotfix`"));

    assert!(matches!(
        pick(&mut o, &Event::Status(Arrival::Disconnected)),
        Next::Wait
    ));
    assert_eq!(o.next_key(), Wait::Key);
}

#[test]
fn status_leaves_the_selection_where_it_was() {
    let mut o = open();
    pick(&mut o, &Event::Key(key(KeyCode::Char('h'))));
    let before = o.picker.selected().unwrap().name.clone();
    let notes = vec![(0, "a".to_string()), (2, "b".to_string())];
    pick(&mut o, &Event::Status(Arrival::Notes(notes)));
    assert_eq!(o.picker.selected().unwrap().name, before);
    assert_eq!(o.picker.filter, "h");
}

#[test]
fn a_picker_needs_a_terminal_and_a_choice() {
    assert!(should_pick(true, 2));
    assert!(!should_pick(true, 1));
    assert!(!should_pick(true, 0));
    assert!(!should_pick(false, 5));
}

// --- choosing what to clean -----------------------------------------

#[test]
fn accepting_hands_over_the_ticked_rows_in_order() {
    let mut screen = Choosing {
        ticked: vec![true, false, false, true],
        cursor_at: 1,
    };
    assert!(matches!(
        choose_to_clean(&mut screen, &key(KeyCode::Char(' '))),
        Choice::Waiting
    ));
    match choose_to_clean(&mut screen, &key(KeyCode::Enter)) {
        Choice::Accepted(list) => assert_eq!(list, [0, 1, 3]),
        other => panic!("enter accepts: {other:?}"),
    }
    assert!(matches!(
        choose_to_clean(&mut screen, &key(KeyCode::Esc)),
        Choice::Cancelled
    ));
}

#[test]
fn a_box_toggled_twice_is_as_it_was() {
    // The first and the last start out ticked.
    let mut screen = Choosing {
        ticked: vec![true, false, true],
        cursor_at: 0,
    };
    let keys = [
        KeyCode::Char(' '),
        KeyCode::Down,
        KeyCode::Char(' '),
        KeyCode::Down,
        KeyCode::Char(' '),
        KeyCode::Char('x'),
        KeyCode::Char(' '),
        KeyCode::Down,
    ];
    for code in keys {
        assert!(matches!(
            choose_to_clean(&mut screen, &key(code)),
            Choice::Waiting
        ));
    }
    assert_eq!(screen.cursor_at, 0);
    match choose_to_clean(&mut screen, &key(KeyCode::Enter)) {
        Choice::Accepted(list) => assert_eq!(list, [1, 2]),
        other => panic!("enter accepts: {other:?}"),
    }
}

#[test]
fn accepting_nothing_hands_over_nothing() {
    let mut screen = Choosing {
        ticked: vec![false],
        cursor_at: 0,
    };
    match choose_to_clean(&mut screen, &key(KeyCode::Enter)) {
        Choice::Accepted(list) => assert!(list.is_empty()),
        other => panic!("enter accepts: {other:?}"),
    }
}
