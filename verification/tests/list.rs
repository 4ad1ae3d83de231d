//! `gwx list`: when it prints, and what.

use gwx::commands::list::{note, opens_picker, run, standing, wants_text, Entry, ListArgs};
use gwx::git::Worktree;
use gwx::path::FilePath;

/// The flags of a command line, where they can be combined.
fn parse(args: &[&str]) -> Option<ListArgs> {
    let asked = |flag: &str| args.iter().any(|a| *a == flag);
    ListArgs::new(asked("--paths"), asked("--plain"), asked("--no-header"))
}

fn list_args(args: &[&str]) -> ListArgs {
    parse(args).expect("flags that can be combined")
}

#[test]
fn asking_for_a_shaped_table_asks_for_the_table() {
    // Each of these means "print text", so none of them may be accepted
    // and then ignored in favour of the picker.
    for flag in ["--plain", "--paths", "--no-header"] {
        assert!(
            wants_text(&list_args(&["gwx", "list", flag])),
            "{flag} would have opened the picker"
        );
    }
    assert!(!wants_text(&list_args(&["gwx", "list"])));
}

#[test]
fn no_header_cannot_be_combined_with_paths() {
    // There are no columns to label in the path listing.
    assert!(parse(&["gwx", "list", "--paths", "--no-header"]).is_none());
}

#[test]
fn notes_describe_worktree_state() {
    let mut wt = Worktree {
        path: FilePath::from_text("/wt"),
        head: None,
        branch: None,
        bare: false,
        detached: true,
        locked: true,
        prunable: false,
    };
    assert_eq!(note(&wt), " (detached, locked)");
    wt.detached = false;
    wt.locked = false;
    assert_eq!(note(&wt), "");
}

#[test]
fn a_broken_checkout_is_noted_last() {
    let mut wt = worktree("/wt/x");
    wt.bare = true;
    wt.prunable = true;
    assert_eq!(note(&wt), " (bare, broken)");
}

fn worktree(path: &str) -> Worktree {
    Worktree {
        path: FilePath::from_text(path),
        head: None,
        branch: None,
        bare: false,
        detached: false,
        locked: false,
        prunable: false,
    }
}

fn entry(name: &str, path: &str) -> Entry {
    Entry {
        worktree: worktree(path),
        name: name.to_string(),
        head: "abc1234".to_string(),
    }
}

fn entries() -> Vec<Entry> {
    let mut locked = entry("feature/auth", "/wt/feature/auth");
    locked.worktree.locked = true;
    vec![entry("@", "/repo"), locked]
}

#[test]
fn the_table_marks_where_you_are_and_aligns_its_columns() {
    let cwd = FilePath::from_text("/wt/feature/auth/src");
    let lines = run(&list_args(&["gwx", "list", "--plain"]), &cwd, &entries());
    assert_eq!(
        lines,
        [
            "  WORKTREE      HEAD     PATH",
            "  @             abc1234  /repo",
            "* feature/auth  abc1234  /wt/feature/auth (locked)",
        ]
    );
}

#[test]
fn a_worktree_inside_another_is_the_one_you_stand_in() {
    let nested = vec![
        entry("@", "/repo"),
        entry("x", "/repo/.worktrees/x"),
        entry("xy", "/repo/.worktrees/xy"),
    ];
    let args = list_args(&["gwx", "list", "--no-header"]);
    let starred = |cwd: &str| -> Vec<usize> {
        let lines = run(&args, &FilePath::from_text(cwd), &nested);
        (0..lines.len()).filter(|i| lines[*i].starts_with('*')).collect()
    };
    assert_eq!(starred("/repo/.worktrees/x"), [1]);
    assert_eq!(starred("/repo/.worktrees/x/src"), [1]);
    assert_eq!(starred("/repo/.worktrees/xy"), [2]);
    assert_eq!(starred("/repo/.worktrees"), [0]);
    assert_eq!(starred("/repo"), [0]);
    assert!(starred("/elsewhere").is_empty());
    assert_eq!(
        standing(&FilePath::from_text("/repo/.worktrees/x/"), &nested),
        [false, true, false]
    );
}

#[test]
fn no_header_leaves_the_rows_as_they_are() {
    let cwd = FilePath::from_text("/repo");
    let whole = run(&list_args(&["gwx", "list", "--plain"]), &cwd, &entries());
    let bare = run(&list_args(&["gwx", "list", "--no-header"]), &cwd, &entries());
    assert_eq!(bare[..], whole[1..]);
}

#[test]
fn a_short_name_does_not_narrow_the_column_below_its_label() {
    let cwd = FilePath::from_text("/elsewhere");
    let lines = run(
        &list_args(&["gwx", "list", "--plain"]),
        &cwd,
        &vec![entry("@", "/repo")],
    );
    assert_eq!(lines[1], "  @         abc1234  /repo");
}

#[test]
fn paths_are_printed_alone_and_whole() {
    let cwd = FilePath::from_text("/repo");
    let lines = run(&list_args(&["gwx", "list", "--paths"]), &cwd, &entries());
    assert_eq!(lines, ["/repo", "/wt/feature/auth"]);
}

#[test]
fn nothing_is_printed_without_worktrees() {
    let cwd = FilePath::from_text("/repo");
    for flag in ["--plain", "--paths", "--no-header"] {
        let lines = run(&list_args(&["gwx", "list", flag]), &cwd, &Vec::new());
        assert!(lines.is_empty(), "{flag}: {lines:?}");
    }
}

#[test]
fn the_picker_opens_only_where_there_is_something_to_pick() {
    let plain = list_args(&["gwx", "list", "--plain"]);
    let none = list_args(&["gwx", "list"]);
    assert!(opens_picker(&none, true, 2));
    assert!(!opens_picker(&none, true, 1));
    assert!(!opens_picker(&none, false, 2));
    assert!(!opens_picker(&plain, true, 2));
}
