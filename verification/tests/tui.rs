//! The picker, its dialog and the clean screen, as a person would see them.

use std::collections::BTreeMap;

use gwx::commands::clean::{Candidate, State};
use gwx::git::Worktree;
use gwx::path::FilePath;
use gwx::text::fit;
use gwx::tui::clean_screen::{clean_step, draw_clean, CleanStep};
use gwx::tui::dialog::{draw_confirm, working};
use gwx::tui::draw::{
    count_label, draw, draw_hints, draw_prompt, HEAD_HEADER, NAME_HEADER, PENDING, PLACEHOLDER,
    STATUS_HEADER,
};
use gwx::tui::hints::{hints_filtering, hints_for, hints_idle, hints_that_fit, hints_width};
use gwx::tui::keys::{
    key_action, reply, Action, KeyCode, KeyEvent, KeyEventKind, Reply, CONTROL, NO_MODIFIER,
};
use gwx::tui::picker::{step, Backspace, Item, Outcome, Picker, Step};
use gwx::tui::screen::{Canvas, Size};
use gwx::tui::status::flags;

/// What a terminal would have shown for one frame.
///
/// The drawing code writes escape sequences to move the cursor and switch
/// attributes, so a frame captured in a buffer is one run-on line until
/// those are replayed. This replays the three that carry the layout —
/// clear, cursor move, reverse video — which is enough to assert on what a
/// person would have seen, and nothing about how it was encoded.
#[derive(Debug, Default)]
struct Frame {
    rows: BTreeMap<u16, String>,
    /// Every run drawn in reverse video: the cursor row and the key badges.
    highlighted: Vec<String>,
}

impl Frame {
    fn parse(bytes: &[u8]) -> Self {
        let text = String::from_utf8(bytes.to_vec()).unwrap();
        let mut frame = Frame::default();
        let mut row = 0u16;
        let mut reversed = false;
        let mut chars = text.chars().peekable();

        while let Some(c) = chars.next() {
            if c != '\u{1b}' {
                frame.rows.entry(row).or_default().push(c);
                if reversed {
                    frame.highlighted.last_mut().unwrap().push(c);
                }
                continue;
            }
            if chars.peek() != Some(&'[') {
                continue;
            }
            chars.next();
            let mut params = String::new();
            let mut end = ' ';
            for c in chars.by_ref() {
                if c.is_ascii_digit() || c == ';' || c == '?' {
                    params.push(c);
                } else {
                    end = c;
                    break;
                }
            }
            match end {
                // Rows are 1-based on the wire; everything is drawn at
                // column 0, so the column is not worth tracking.
                'H' => {
                    let line = params.split(';').next().unwrap_or("1");
                    row = line.parse::<u16>().unwrap_or(1).saturating_sub(1);
                }
                'J' => frame.rows.clear(),
                'm' => match params.as_str() {
                    "7" => {
                        reversed = true;
                        frame.highlighted.push(String::new());
                    }
                    "0" => reversed = false,
                    _ => {}
                },
                _ => {}
            }
        }
        frame
    }

    fn row(&self, n: u16) -> &str {
        self.rows.get(&n).map(String::as_str).unwrap_or("")
    }

    /// Every row, so a test can ask whether something is on screen at all.
    fn text(&self) -> String {
        self.rows.values().cloned().collect::<Vec<_>>().join("\n")
    }
}

fn frame_of(f: impl FnOnce(&mut Canvas)) -> Frame {
    let mut canvas = Canvas::new();
    f(&mut canvas);
    Frame::parse(canvas.render().as_bytes())
}

fn key(code: KeyCode) -> KeyEvent {
    KeyEvent::new(code, NO_MODIFIER)
}

fn ctrl(c: char) -> KeyEvent {
    KeyEvent::new(KeyCode::Char(c), CONTROL)
}

fn item(name: &str, path: &str) -> Item {
    Item {
        name: name.to_string(),
        path: FilePath::from_text(path),
        head: "abc1234".to_string(),
        note: None,
        is_current: false,
        is_main: false,
        worktree: Worktree {
            path: FilePath::from_text(path),
            head: None,
            branch: Some(name.to_string()),
            bare: false,
            detached: false,
            locked: false,
            prunable: false,
        },
    }
}

fn picker() -> Picker {
    Picker::new(vec![
        item("@", "/repo"),
        item("feature/auth", "/wt/feature/auth"),
        item("feature/billing", "/wt/feature/billing"),
        item("hotfix", "/wt/hotfix"),
    ])
}

#[test]
fn the_interface_is_ascii_only() {
    // Non-ASCII risks missing glyphs, and emoji-presentation characters
    // render double width and break the column alignment.
    for hint in hints_idle().iter().chain(&hints_filtering()) {
        for key in &hint.keys {
            assert!(key.is_ascii(), "{key}");
        }
        assert!(hint.label.is_ascii(), "{}", hint.label);
    }
    for label in [
        "Remove this worktree?",
        "  ! uncommitted changes will be lost",
        "[y] remove worktree   [b] remove worktree and branch   [n] cancel",
    ] {
        assert!(label.is_ascii(), "{label}");
    }
}

#[test]
fn keys_are_spelled_out() {
    // `^d` and `bksp` are shorthand a help line cannot assume its reader
    // knows, so both are written in full.
    let keys: Vec<&str> = hints_idle()
        .iter()
        .chain(&hints_filtering())
        .flat_map(|h| h.keys.iter().copied())
        .collect();
    assert!(keys.contains(&"ctrl-d"), "{keys:?}");
    assert!(keys.contains(&"backspace"), "{keys:?}");
    assert!(!keys.iter().any(|k| k.contains("bksp") || k.contains('^')));
}

#[test]
fn the_help_says_what_backspace_will_do() {
    let mut p = picker();
    let idle = hints_for(&p);
    let delete = idle.iter().find(|h| h.label == "delete").unwrap();
    assert!(delete.keys.contains(&"backspace"), "{:?}", delete.keys);

    p.push_filter('a');
    let filtering = hints_for(&p);
    let erase = filtering.iter().find(|h| h.label == "erase").unwrap();
    assert_eq!(erase.keys, ["backspace"]);
    // While filtering, deleting is ctrl-d only.
    let delete = filtering.iter().find(|h| h.label == "delete").unwrap();
    assert_eq!(delete.keys, ["ctrl-d"]);
}

#[test]
fn a_narrow_terminal_drops_optional_hints_instead_of_cutting_words() {
    let full = hints_width(&hints_idle());
    assert_eq!(hints_that_fit(hints_idle(), full).len(), hints_idle().len());

    // One column short: the optional "move" hint goes, the rest survive.
    let narrowed = hints_that_fit(hints_idle(), full - 1);
    assert_eq!(narrowed.len(), hints_idle().len() - 1);
    assert!(!narrowed.iter().any(|h| h.label == "move"));
    assert!(narrowed.iter().any(|h| h.label == "cancel"));

    // Nothing optional left to drop: the required hints are kept.
    assert!(!hints_that_fit(hints_idle(), 1).is_empty());
}

#[test]
fn the_count_explains_an_empty_list() {
    // Nothing typed: the size of the list.
    assert_eq!(count_label("", 4, 4), "4 worktrees");
    assert_eq!(count_label("", 1, 1), "1 worktree");
    // Typing: how much of it survived, so filtering everything away reads
    // as `0 of 4` instead of an unexplained blank screen.
    assert_eq!(count_label("bill", 1, 4), "1 of 4");
    assert_eq!(count_label("zzz", 0, 4), "0 of 4");
}

#[test]
fn the_column_headers_are_ascii() {
    for header in [NAME_HEADER, HEAD_HEADER, STATUS_HEADER, PENDING] {
        assert!(header.is_ascii(), "{header}");
    }
}

#[test]
fn rows_start_without_a_status() {
    // The list is drawn before git is asked anything slow, so the status
    // column starts empty and fills in later.
    let p = picker();
    assert!(p.items.iter().all(|i| i.note.is_none()));
}

#[test]
fn the_placeholder_is_ascii_and_says_what_typing_does() {
    assert!(PLACEHOLDER.is_ascii(), "{PLACEHOLDER}");
    assert!(PLACEHOLDER.contains("filter"), "{PLACEHOLDER}");
}

#[test]
fn backspace_removes_a_worktree_when_nothing_is_typed() {
    let mut p = picker();
    assert_eq!(p.backspace(), Backspace::Delete);
}

#[test]
fn backspace_edits_the_filter_while_there_is_one() {
    let mut p = picker();
    p.push_filter('a');
    p.push_filter('u');
    assert_eq!(p.backspace(), Backspace::ErasedFilter);
    assert_eq!(p.backspace(), Backspace::ErasedFilter);
    assert_eq!(p.filter, "");
}

#[test]
fn holding_backspace_to_clear_cannot_run_into_a_deletion() {
    let mut p = picker();
    for c in "auth".chars() {
        p.push_filter(c);
    }
    // The burst that empties the filter.
    for _ in 0..4 {
        assert_eq!(p.backspace(), Backspace::ErasedFilter);
    }
    // The overshoot from key repeat is swallowed instead of deleting.
    assert_eq!(p.backspace(), Backspace::Absorbed);
    // A deliberate press after that still works.
    assert_eq!(p.backspace(), Backspace::Delete);
}

#[test]
fn any_other_key_ends_the_erasing_streak() {
    let mut p = picker();
    p.push_filter('a');
    assert_eq!(p.backspace(), Backspace::ErasedFilter);
    // Moving the cursor means the next Backspace is a fresh intent.
    p.note_other_key();
    assert_eq!(p.backspace(), Backspace::Delete);
}

#[test]
fn rows_are_padded_so_a_highlight_covers_the_line() {
    assert_eq!(fit("abc", 6), "abc   ");
    assert_eq!(fit("abcdefgh", 4), "abcd");
    assert_eq!(fit("", 3), "   ");
}

#[test]
fn filter_matches_name_and_path_case_insensitively() {
    let mut p = picker();
    p.filter = "AUTH".to_string();
    assert_eq!(p.matches().len(), 1);
    assert_eq!(p.selected().unwrap().name, "feature/auth");

    p.filter = "feature".to_string();
    assert_eq!(p.matches().len(), 2);

    p.filter = "/wt/hot".to_string();
    assert_eq!(p.selected().unwrap().name, "hotfix");
}

#[test]
fn cursor_wraps_around() {
    let mut p = picker();
    p.move_up();
    assert_eq!(p.selected().unwrap().name, "hotfix");
    p.move_down();
    assert_eq!(p.selected().unwrap().name, "@");
}

#[test]
fn cursor_stays_inside_a_shrinking_list() {
    let mut p = picker();
    p.cursor = 3;
    for c in "feature".chars() {
        p.push_filter(c);
    }
    // Only the two `feature/*` rows remain, so the cursor cannot stay at 3.
    assert_eq!(p.matches().len(), 2);
    assert_eq!(p.cursor, 1);
    assert_eq!(p.selected().unwrap().name, "feature/billing");
}

#[test]
fn no_match_leaves_nothing_selected() {
    let mut p = picker();
    p.filter = "zzz".to_string();
    p.clamp();
    assert!(p.selected().is_none());
}

#[test]
fn backspace_restores_matches() {
    let mut p = picker();
    p.push_filter('z');
    assert!(p.selected().is_none());
    p.pop_filter();
    assert_eq!(p.matches().len(), 4);
}

#[test]
fn scrolling_follows_the_cursor() {
    let mut p = picker();
    p.cursor = 3;
    p.scroll_into_view(2);
    assert_eq!(p.offset, 2);
    p.cursor = 0;
    p.scroll_into_view(2);
    assert_eq!(p.offset, 0);
}

#[test]
fn a_terminal_with_no_room_for_the_list_does_not_scroll_it() {
    // Three rows of chrome on a three-row terminal leaves a window of
    // nothing; scrolling into it would put the offset past the last item.
    let mut p = picker();
    p.cursor = 3;
    p.scroll_into_view(0);
    assert_eq!(p.offset, 0);
}

#[test]
fn delete_is_bound_to_both_delete_and_ctrl_d() {
    let del = KeyEvent::new(KeyCode::Delete, NO_MODIFIER);
    let ctrl_d = KeyEvent::new(KeyCode::Char('d'), CONTROL);
    assert!(matches!(key_action(&del), Action::Delete));
    assert!(matches!(key_action(&ctrl_d), Action::Delete));
    // Backspace must stay with the filter, not delete a worktree.
    let backspace = KeyEvent::new(KeyCode::Backspace, NO_MODIFIER);
    assert!(matches!(key_action(&backspace), Action::Backspace));
}

#[test]
fn plain_characters_type_into_the_filter() {
    let a = KeyEvent::new(KeyCode::Char('a'), NO_MODIFIER);
    assert!(matches!(key_action(&a), Action::Insert('a')));
    // Ctrl-n/p navigate instead of typing.
    let ctrl_n = KeyEvent::new(KeyCode::Char('n'), CONTROL);
    assert!(matches!(key_action(&ctrl_n), Action::Down));
}

#[test]
fn every_way_out_of_the_picker_is_bound() {
    assert_eq!(key_action(&key(KeyCode::Enter)), Action::Confirm);
    assert_eq!(key_action(&key(KeyCode::Esc)), Action::Cancel);
    assert_eq!(key_action(&ctrl('c')), Action::Cancel);
    assert_eq!(key_action(&ctrl('g')), Action::Cancel);
    assert_eq!(key_action(&key(KeyCode::Up)), Action::Up);
    assert_eq!(key_action(&key(KeyCode::Down)), Action::Down);
    assert_eq!(key_action(&ctrl('p')), Action::Up);
    // A terminal told to send 0x08 for the erase key surfaces it as Ctrl-H,
    // which has to reach the filter rather than doing nothing.
    assert_eq!(key_action(&ctrl('h')), Action::Backspace);
    // Anything unbound is inert rather than typed into the filter.
    assert_eq!(key_action(&key(KeyCode::F(1))), Action::Ignore);
    assert_eq!(key_action(&ctrl('z')), Action::Ignore);
}

// --- what a key does to the list ------------------------------------

#[test]
fn enter_hands_back_the_selected_path() {
    let mut p = picker();
    p.cursor = 1;
    match step(&mut p, Action::Confirm) {
        Step::Done(Outcome::Selected(path)) => {
            assert_eq!(path.display(), "/wt/feature/auth")
        }
        _ => panic!("Enter should have chosen the row under the cursor"),
    }
}

#[test]
fn enter_on_nothing_leaves_the_picker_open() {
    // Filtering everything away must not be a way to exit with no answer.
    let mut p = picker();
    p.filter = "zzz".to_string();
    p.clamp();
    assert!(matches!(step(&mut p, Action::Confirm), Step::Stay));
}

#[test]
fn escape_ends_the_picker_without_moving() {
    let mut p = picker();
    assert!(matches!(
        step(&mut p, Action::Cancel),
        Step::Done(Outcome::Cancelled)
    ));
}

#[test]
fn typing_and_moving_only_change_the_list() {
    let mut p = picker();
    assert!(matches!(step(&mut p, Action::Insert('f')), Step::Stay));
    assert_eq!(p.filter, "f");
    assert!(matches!(step(&mut p, Action::Down), Step::Stay));
    assert_eq!(p.selected().unwrap().name, "feature/billing");
    assert!(matches!(step(&mut p, Action::Up), Step::Stay));
    assert_eq!(p.selected().unwrap().name, "feature/auth");
    assert!(matches!(step(&mut p, Action::Ignore), Step::Stay));
}

#[test]
fn only_a_deliberate_backspace_reaches_the_dialog() {
    let mut p = picker();
    // While there is a filter, Backspace edits it.
    assert!(matches!(step(&mut p, Action::Insert('a')), Step::Stay));
    assert!(matches!(step(&mut p, Action::Backspace), Step::Stay));
    // The press that overshoots the empty filter is swallowed.
    assert!(matches!(step(&mut p, Action::Backspace), Step::Stay));
    // The one after it is meant.
    assert!(matches!(step(&mut p, Action::Backspace), Step::Delete));
    // Ctrl-D never has to wait for that, since it has only one job.
    assert!(matches!(step(&mut p, Action::Delete), Step::Delete));
}

#[test]
fn moving_the_cursor_ends_the_erasing_streak() {
    // `step` is where the streak is cleared, so the swallowed press cannot
    // survive a key that was clearly not part of the burst.
    let mut p = picker();
    step(&mut p, Action::Insert('a'));
    step(&mut p, Action::Backspace);
    step(&mut p, Action::Down);
    assert!(matches!(step(&mut p, Action::Backspace), Step::Delete));
}

// --- the frame the picker draws -------------------------------------

const WIDE: Size = Size { cols: 80, rows: 24 };

#[test]
fn the_frame_puts_the_header_over_the_rows_it_labels() {
    let mut p = picker();
    p.items[0].is_current = true;
    p.items[1].note = Some("dirty, merged".to_string());
    let frame = frame_of(|out| draw(out, &mut p, None, WIDE));

    assert!(frame.row(0).starts_with("  WORKTREE"), "{:?}", frame.row(0));
    assert!(frame.row(0).contains("HEAD"));
    assert!(frame.row(0).contains("STATUS"));
    // The four rows follow it, in order, one per line.
    assert!(frame.row(1).starts_with("* @"), "{:?}", frame.row(1));
    assert!(frame.row(2).contains("feature/auth"));
    assert!(frame.row(2).contains("dirty, merged"));
    assert!(frame.row(3).contains("feature/billing"));
    assert!(frame.row(4).contains("hotfix"));
    // The marker column says where you are standing; only one row can.
    assert!(!frame.row(2).starts_with('*'), "{:?}", frame.row(2));
}

#[test]
fn a_status_still_being_worked_out_says_so() {
    let mut p = picker();
    // What the first frame shows: nothing has come back from the feed yet.
    let frame = frame_of(|out| draw(out, &mut p, None, WIDE));
    assert!(frame.row(1).contains(PENDING), "{:?}", frame.row(1));

    // And once it has: an answer of "nothing to report" leaves the column
    // blank, which is what the placeholder was there to keep apart from
    // the wait.
    p.items[0].note = Some(String::new());
    p.items[1].note = Some("dirty".to_string());
    let frame = frame_of(|out| draw(out, &mut p, None, WIDE));
    assert!(!frame.row(1).contains(PENDING), "{:?}", frame.row(1));
    assert_eq!(frame.row(1).trim_end(), "  @                abc1234");
    assert!(frame.row(2).contains("dirty"), "{:?}", frame.row(2));
}

#[test]
fn the_cursor_row_is_highlighted_edge_to_edge() {
    let mut p = picker();
    p.cursor = 2;
    let frame = frame_of(|out| draw(out, &mut p, None, WIDE));

    let row = frame
        .highlighted
        .iter()
        .find(|h| h.contains("feature/billing"))
        .expect("the row under the cursor is drawn in reverse video");
    // Padded to the full width, so the highlight is a bar and not a
    // ragged patch the length of the branch name.
    assert_eq!(row.chars().count(), WIDE.cols);
}

#[test]
fn a_narrow_terminal_cuts_the_rows_rather_than_wrapping_them() {
    // Wrapping would push the prompt and the help line off the bottom.
    let mut p = picker();
    let size = Size { cols: 24, rows: 24 };
    let frame = frame_of(|out| draw(out, &mut p, None, size));

    for row in 0..=4 {
        assert_eq!(
            frame.row(row).chars().count(),
            size.cols,
            "row {row}: {:?}",
            frame.row(row)
        );
    }
}

#[test]
fn a_message_sits_above_the_prompt_and_is_cut_to_the_width() {
    let mut p = picker();
    let long = "failed to remove `feature/auth`: ".to_string() + &"x".repeat(200);
    let frame = frame_of(|out| draw(out, &mut p, Some(&long), WIDE));

    // Rows 21, 22, 23 of a 24-row terminal: message, prompt, hints.
    assert!(frame.row(21).starts_with("failed to remove"));
    assert_eq!(frame.row(21).chars().count(), WIDE.cols);
    assert!(frame.row(22).starts_with("> "));
    assert!(frame.row(23).contains("cancel"));
}

#[test]
fn the_list_shrinks_to_leave_room_for_a_message() {
    // Four rows of terminal: header, one row, prompt, hints — and with a
    // message, the list gives up its last row rather than the help line.
    let mut p = picker();
    let size = Size { cols: 80, rows: 5 };
    let frame = frame_of(|out| draw(out, &mut p, None, size));
    assert!(frame.row(2).contains("feature/auth"));

    let frame = frame_of(|out| draw(out, &mut p, Some("removed `hotfix`"), size));
    assert!(!frame.row(2).contains("feature/auth"), "{:?}", frame.row(2));
    assert!(frame.row(2).starts_with("removed `hotfix`"));
}

#[test]
fn the_view_scrolls_to_keep_the_cursor_on_screen() {
    let mut p = picker();
    p.cursor = 3;
    // Two rows of list, so the first two items have to scroll away.
    let size = Size { cols: 80, rows: 5 };
    let frame = frame_of(|out| draw(out, &mut p, None, size));

    assert!(
        frame.row(1).contains("feature/billing"),
        "{:?}",
        frame.row(1)
    );
    assert!(frame.row(2).contains("hotfix"), "{:?}", frame.row(2));
    assert!(!frame.text().contains(" @ "), "{}", frame.text());
}

#[test]
fn the_prompt_offers_the_placeholder_and_the_size_of_the_list() {
    let p = picker();
    let frame = frame_of(|out| draw_prompt(out, &p, 4, 80));
    let line = frame.row(0);
    assert!(line.starts_with("> "), "{line:?}");
    assert!(line.contains(PLACEHOLDER), "{line:?}");
    // The count is right-aligned against the width it was given.
    assert!(line.ends_with("4 worktrees"), "{line:?}");
    assert_eq!(line.chars().count(), 80);
}

#[test]
fn typing_replaces_the_placeholder_with_what_survived() {
    let mut p = picker();
    p.push_filter('f');
    let frame = frame_of(|out| draw_prompt(out, &p, 2, 80));
    let line = frame.row(0);
    assert!(line.starts_with("> f"), "{line:?}");
    assert!(!line.contains(PLACEHOLDER), "{line:?}");
    assert!(line.ends_with("2 of 4"), "{line:?}");
}

#[test]
fn the_count_is_dropped_rather_than_wrapped_onto_the_next_line() {
    let p = picker();
    let frame = frame_of(|out| draw_prompt(out, &p, 4, 10));
    assert!(!frame.row(0).contains("worktrees"), "{:?}", frame.row(0));
}

#[test]
fn the_filter_line_always_shows_a_block_cursor() {
    // The terminal's own cursor is hidden for the whole picker, so without
    // this the empty filter line is a lone `>` with no sign it takes input.
    let p = picker();
    let frame = frame_of(|out| draw_prompt(out, &p, 4, 80));
    assert!(frame.highlighted.contains(&" ".to_string()));
}

#[test]
fn each_key_in_the_help_line_gets_its_own_badge() {
    let hints = hints_idle();
    let frame = frame_of(|out| draw_hints(out, &hints));

    assert_eq!(frame.row(0).trim_start(), frame.row(0).trim_start());
    assert!(frame.row(0).contains(" enter  cd"), "{:?}", frame.row(0));
    // Two keys for one label, each in a badge of its own.
    assert!(frame.highlighted.contains(&" ctrl-d ".to_string()));
    assert!(frame.highlighted.contains(&" backspace ".to_string()));
}

// --- the confirmation dialog ----------------------------------------

fn worktree(path: &str, branch: Option<&str>) -> Worktree {
    Worktree {
        path: FilePath::from_text(path),
        head: Some("abc1234".to_string()),
        branch: branch.map(str::to_string),
        bare: false,
        detached: branch.is_none(),
        locked: false,
        prunable: false,
    }
}

#[test]
fn the_dialog_names_the_worktree_and_the_state_of_its_branch() {
    let wt = worktree("/wt/feature/auth", Some("feature/auth"));
    let frame = frame_of(|out| draw_confirm(out, &wt, false, true, WIDE));

    assert_eq!(frame.row(0), "Remove this worktree?");
    assert_eq!(frame.row(2), "  /wt/feature/auth");
    assert_eq!(frame.row(4), "  branch `feature/auth` (merged)");
    assert!(frame.row(23).contains("[b] remove worktree and branch"));
}

#[test]
fn an_unmerged_branch_says_so_in_capitals() {
    // The word is the whole warning, so it has to survive being skimmed.
    let wt = worktree("/wt/hotfix", Some("hotfix"));
    let frame = frame_of(|out| draw_confirm(out, &wt, false, false, WIDE));
    assert_eq!(frame.row(4), "  branch `hotfix` (NOT merged)");
}

#[test]
fn uncommitted_work_is_warned_about_above_the_branch() {
    let wt = worktree("/wt/hotfix", Some("hotfix"));
    let frame = frame_of(|out| draw_confirm(out, &wt, true, false, WIDE));

    assert_eq!(frame.row(4), "  ! uncommitted changes will be lost");
    // The branch line moves down rather than being written over.
    assert_eq!(frame.row(5), "  branch `hotfix` (NOT merged)");
}

#[test]
fn a_detached_worktree_is_not_offered_a_branch_to_delete() {
    let wt = worktree("/wt/detached", None);
    let frame = frame_of(|out| draw_confirm(out, &wt, false, false, WIDE));

    assert!(!frame.text().contains("branch"), "{}", frame.text());
    assert_eq!(frame.row(23), "[y] remove worktree   [n] cancel");
}

#[test]
fn the_dialog_takes_yes_in_either_case() {
    for c in ['y', 'Y'] {
        assert_eq!(
            reply(&key(KeyCode::Char(c)), true),
            Some(Reply::Remove { with_branch: false })
        );
    }
    for c in ['b', 'B'] {
        assert_eq!(
            reply(&key(KeyCode::Char(c)), true),
            Some(Reply::Remove { with_branch: true })
        );
    }
}

#[test]
fn without_a_branch_the_branch_key_does_nothing() {
    // The key line does not offer `b`, so pressing it is a typo, and a typo
    // must not be read as a bigger yes than the one on offer.
    assert_eq!(reply(&key(KeyCode::Char('b')), false), None);
    assert_eq!(
        reply(&key(KeyCode::Char('y')), false),
        Some(Reply::Remove { with_branch: false })
    );
}

#[test]
fn every_way_of_backing_out_of_the_dialog_cancels() {
    for k in [
        key(KeyCode::Char('n')),
        key(KeyCode::Char('N')),
        key(KeyCode::Esc),
        ctrl('c'),
    ] {
        assert_eq!(reply(&k, true), Some(Reply::Cancel), "{k:?}");
    }
}

#[test]
fn an_unrelated_key_leaves_the_question_on_screen() {
    assert_eq!(reply(&key(KeyCode::Char('q')), true), None);
    assert_eq!(reply(&key(KeyCode::Enter), true), None);

    // Windows reports a release for every press; answering on both would
    // count one keystroke twice.
    let mut release = key(KeyCode::Char('y'));
    release.kind = KeyEventKind::Release;
    assert_eq!(reply(&release, true), None);
}

#[test]
fn the_working_line_says_what_is_taking_so_long() {
    let frame = frame_of(|out| working(out, "Removing /wt/hotfix...", WIDE));
    assert_eq!(frame.row(0), "Removing /wt/hotfix...");
}

// --- the clean screen -----------------------------------------------

fn candidate(name: &str, state: State, note: &str) -> Candidate {
    Candidate {
        worktree: worktree(&format!("/wt/{name}"), Some(name)),
        name: name.to_string(),
        state,
        note: note.to_string(),
    }
}

fn candidates() -> Vec<Candidate> {
    vec![
        candidate("feature/auth", State::Done, "merged into main"),
        candidate("feature/billing", State::Local, "3 commits nowhere else"),
        candidate("hotfix", State::Dirty, "uncommitted changes"),
    ]
}

#[test]
fn the_clean_screen_shows_a_verdict_and_a_box_per_row() {
    let list = candidates();
    let ticked = vec![true, false, false];
    let frame = frame_of(|out| draw_clean(out, &list, &ticked, 0, false, WIDE));

    assert_eq!(frame.row(0).trim_end(), "Select worktrees to remove");
    assert!(frame.row(2).contains("WORKTREE"), "{:?}", frame.row(2));
    assert!(frame.row(2).contains("SAFE TO REMOVE"));
    assert!(
        frame.row(3).contains("[x] feature/auth"),
        "{:?}",
        frame.row(3)
    );
    assert!(frame.row(4).contains("[ ] feature/billing"));
    assert!(frame.row(4).contains("yes (local)"));
    assert!(frame.row(5).contains("no (dirty)"), "{:?}", frame.row(5));
    assert!(frame.row(5).contains("uncommitted changes"));
    // The tally is what tells you Enter is about to remove one thing.
    assert!(frame.row(22).starts_with("1 of 3 selected"));
    assert!(frame.row(23).contains("toggle"));
}

#[test]
fn with_branch_turns_a_local_branch_into_a_no() {
    // Removing the branch takes its commits with it, which nothing else
    // on the screen would have warned about.
    let list = candidates();
    let ticked = vec![false, false, false];
    let frame = frame_of(|out| draw_clean(out, &list, &ticked, 0, true, WIDE));
    assert!(frame.row(4).contains("no (local)"), "{:?}", frame.row(4));
}

#[test]
fn the_clean_cursor_row_is_marked_and_highlighted() {
    let list = candidates();
    let ticked = vec![false, false, false];
    let frame = frame_of(|out| draw_clean(out, &list, &ticked, 1, false, WIDE));

    assert!(frame.row(4).starts_with("> "), "{:?}", frame.row(4));
    assert!(frame.row(3).starts_with("  "), "{:?}", frame.row(3));
    let row = frame
        .highlighted
        .iter()
        .find(|h| h.contains("feature/billing"))
        .expect("the row under the cursor is drawn in reverse video");
    assert_eq!(row.chars().count(), WIDE.cols);
}

#[test]
fn a_short_terminal_stops_before_the_tally_it_would_overwrite() {
    let list = candidates();
    let ticked = vec![false, false, false];
    let size = Size { cols: 80, rows: 6 };
    let frame = frame_of(|out| draw_clean(out, &list, &ticked, 0, false, size));

    assert!(frame.row(3).contains("feature/auth"));
    // Row 4 is the last one that fits; the tally owns row 4 of a 6-row
    // terminal, so the third candidate is dropped rather than drawn over it.
    assert!(!frame.text().contains("hotfix"), "{}", frame.text());
    assert!(frame.row(4).starts_with("0 of 3 selected"));
}

#[test]
fn space_ticks_the_row_under_the_cursor() {
    let mut ticked = vec![false, false, false];
    let mut at = 1;
    assert_eq!(
        clean_step(&key(KeyCode::Char(' ')), &mut ticked, &mut at),
        CleanStep::Stay
    );
    assert_eq!(ticked, [false, true, false]);
    // And unticks it, so a mis-selection costs one keystroke.
    clean_step(&key(KeyCode::Char(' ')), &mut ticked, &mut at);
    assert_eq!(ticked, [false, false, false]);
}

#[test]
fn the_clean_cursor_wraps_at_both_ends() {
    let mut ticked = vec![false, false, false];
    let mut at = 0;
    clean_step(&key(KeyCode::Up), &mut ticked, &mut at);
    assert_eq!(at, 2);
    clean_step(&key(KeyCode::Down), &mut ticked, &mut at);
    assert_eq!(at, 0);
    clean_step(&ctrl('n'), &mut ticked, &mut at);
    assert_eq!(at, 1);
    clean_step(&ctrl('p'), &mut ticked, &mut at);
    assert_eq!(at, 0);
}

#[test]
fn enter_accepts_the_selection_and_escape_throws_it_away() {
    let mut ticked = vec![true, false, true];
    let mut at = 0;
    assert_eq!(
        clean_step(&key(KeyCode::Enter), &mut ticked, &mut at),
        CleanStep::Accept
    );
    for k in [key(KeyCode::Esc), ctrl('c'), ctrl('g')] {
        assert_eq!(
            clean_step(&k, &mut ticked, &mut at),
            CleanStep::Cancel,
            "{k:?}"
        );
    }
    // An unbound key changes nothing at all.
    assert_eq!(
        clean_step(&key(KeyCode::Char('x')), &mut ticked, &mut at),
        CleanStep::Stay
    );
    assert_eq!(ticked, [true, false, true]);
    assert_eq!(at, 0);

    let mut release = key(KeyCode::Enter);
    release.kind = KeyEventKind::Release;
    assert_eq!(
        clean_step(&release, &mut ticked, &mut at),
        CleanStep::Stay,
        "a release must not confirm what the press already did"
    );
}

// --- what git says about a worktree ---------------------------------

#[test]
fn flags_repeat_only_what_git_says_about_the_worktree() {
    let plain = worktree("/wt/hotfix", Some("hotfix"));
    assert!(flags(&plain).is_empty());

    let mut odd = plain.clone();
    odd.bare = true;
    odd.detached = true;
    odd.locked = true;
    assert_eq!(flags(&odd), ["bare", "detached", "locked"]);
}
