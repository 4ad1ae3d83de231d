//! Text, paths, keys and the bytes a terminal is sent.

use std::path::Path;

use gwx::commands::clean::{Candidate, State};
use gwx::git::Worktree;
use gwx::path::FilePath;
use gwx::text::{blanks, contains, count, fit, join, number, pad, truncate, widest};
use gwx::tui::clean_screen::{chosen, clean_step, draw_clean, preselection, Choosing, CleanStep};
use gwx::tui::dialog::draw_confirm;
use gwx::tui::draw::{draw, draw_hints};
use gwx::tui::hints::{
    clean_hints, hints_filtering, hints_for, hints_idle, hints_that_fit, hints_width,
};
use gwx::tui::keys::{
    key_action, Action, KeyCode, KeyEvent, KeyEventKind, CONTROL, NO_MODIFIER,
};
use gwx::tui::picker::{sift, Item, Picker};
use gwx::tui::screen::{Attribute, Canvas, Size};

// --- text -----------------------------------------------------------

#[test]
fn numbers_are_written_as_they_are_read() {
    for n in [0, 7, 9, 10, 42, 100, 65535, usize::MAX] {
        assert_eq!(number(n), n.to_string());
    }
}

#[test]
fn widths_count_characters_rather_than_bytes() {
    assert_eq!(count("héllo"), 5);
    assert_eq!(fit("héllo", 4), "héll");
    assert_eq!(fit("é", 3), "é  ");
    assert_eq!(pad("é", 3), "é  ");
    assert_eq!(pad("héllo", 3), "héllo");
    assert_eq!(truncate("héllo", 2), "hé");
    assert_eq!(truncate("hi", 9), "hi");
    assert_eq!(blanks(3), "   ");
}

#[test]
fn fitting_twice_changes_nothing() {
    for line in ["", "ab", "abcdef"] {
        let once = fit(line, 4);
        assert_eq!(count(&once), 4);
        assert_eq!(fit(&once, 4), once);
        assert_eq!(fit(&pad(line, 4), 4), once);
    }
}

#[test]
fn joining_puts_separators_between_and_nowhere_else() {
    let words = |list: &[&str]| -> Vec<String> { list.iter().map(|s| s.to_string()).collect() };
    assert_eq!(join(&words(&[]), ", "), "");
    assert_eq!(join(&words(&["a"]), ", "), "a");
    assert_eq!(join(&words(&["a", "", "c"]), ", "), "a, , c");
}

#[test]
fn a_column_is_as_wide_as_its_widest_entry_or_its_label() {
    let entries = vec!["ab".to_string(), "héllo".to_string()];
    assert_eq!(widest(&entries, "HEAD"), 5);
    assert_eq!(widest(&entries, "WORKTREE"), 8);
    assert_eq!(widest(&Vec::new(), "NOTE"), 4);
}

#[test]
fn searching_finds_what_std_finds() {
    for hay in ["", "a", "abc", "aabaab", "feature/auth"] {
        for needle in ["", "a", "b", "ab", "aab", "abc", "auth", "authx", "zz"] {
            assert_eq!(contains(hay, needle), hay.contains(needle), "{hay} {needle}");
        }
    }
}

#[test]
fn sifting_keeps_rows_by_either_text_and_in_order() {
    let rows: Vec<(String, String)> = [("ab", "x"), ("c", "y"), ("z", "ab")]
        .iter()
        .map(|(a, b)| (a.to_string(), b.to_string()))
        .collect();
    assert_eq!(sift(&rows, "ab"), [0, 2]);
    assert_eq!(sift(&rows, "y"), [1]);
    assert!(sift(&rows, "q").is_empty());
}

// --- paths ----------------------------------------------------------

const PATHS: [&str; 18] = [
    "", "/", "//", "a", "a/", "a//b", "a/b", "a/./b", "./a", ".", "./", "/a", "/a/", "/a/b",
    "/a/b/../c", "/ab", "..", "a/..",
];

#[test]
fn paths_compare_as_std_compares_them() {
    for a in PATHS {
        for b in PATHS {
            assert_eq!(
                FilePath::from_text(a).is(&FilePath::from_text(b)),
                Path::new(a) == Path::new(b),
                "{a:?} {b:?}"
            );
            assert_eq!(
                FilePath::from_text(a).starts_with(&FilePath::from_text(b)),
                Path::new(a).starts_with(Path::new(b)),
                "{a:?} within {b:?}"
            );
        }
    }
}

#[test]
fn depth_counts_the_parts_std_counts() {
    for path in PATHS {
        assert_eq!(
            FilePath::from_text(path).depth(),
            Path::new(path).components().count(),
            "{path:?}"
        );
    }
}

#[test]
fn a_path_reads_as_it_was_written() {
    for text in ["/wt/feature/auth", "/wt/ünïcode", ""] {
        assert_eq!(FilePath::from_text(text).display(), text);
        assert_eq!(FilePath::from_text(text).clone().bytes, text.as_bytes());
    }
    let odd = FilePath {
        bytes: vec![b'/', 0xff, b'x'],
    };
    assert_eq!(odd.display(), "/\u{fffd}x");
}

// --- the picker's filter --------------------------------------------

fn item(name: &str, path: &str) -> Item {
    Item {
        name: name.to_string(),
        path: FilePath::from_text(path),
        head: "abc1234".to_string(),
        note: None,
        is_current: false,
        is_main: false,
        worktree: worktree(path, Some(name)),
    }
}

fn worktree(path: &str, branch: Option<&str>) -> Worktree {
    Worktree {
        path: FilePath::from_text(path),
        head: None,
        branch: branch.map(str::to_string),
        bare: false,
        detached: false,
        locked: false,
        prunable: false,
    }
}

#[test]
fn the_filter_ignores_case_beyond_ascii_too() {
    let mut p = Picker::new(vec![item("École", "/WT/one"), item("straße", "/wt/TWO")]);
    p.filter = "éCOLE".to_string();
    assert_eq!(p.matches(), [0]);
    p.filter = "/wt/T".to_string();
    assert_eq!(p.matches(), [1]);
    p.filter = "wt".to_string();
    assert_eq!(p.matches(), [0, 1]);
    p.filter = String::new();
    assert_eq!(p.matches(), [0, 1]);
}

#[test]
fn moving_on_an_empty_list_does_nothing() {
    let mut p = Picker::new(Vec::new());
    p.move_down();
    p.move_up();
    p.clamp();
    p.scroll_into_view(5);
    assert_eq!((p.cursor, p.offset), (0, 0));
    assert!(p.selected().is_none());
}

#[test]
fn down_and_up_come_back_to_the_same_row() {
    let mut p = Picker::new(vec![item("a", "/a"), item("b", "/b"), item("c", "/c")]);
    for at in 0..3 {
        p.cursor = at;
        p.move_down();
        p.move_up();
        assert_eq!(p.cursor, at);
        p.move_up();
        p.move_down();
        assert_eq!(p.cursor, at);
    }
}

// --- keys -----------------------------------------------------------

#[test]
fn control_counts_among_other_modifiers() {
    let shift = 1;
    assert_eq!(
        key_action(&KeyEvent::new(KeyCode::Char('d'), CONTROL | shift)),
        Action::Delete
    );
    assert_eq!(
        key_action(&KeyEvent::new(KeyCode::Char('D'), shift)),
        Action::Insert('D')
    );
    assert_eq!(
        key_action(&KeyEvent::new(KeyCode::Char('d'), 4)),
        Action::Insert('d')
    );
    assert_eq!(
        crossterm::event::KeyModifiers::CONTROL.bits(),
        CONTROL,
        "the bit is the one the terminal library uses"
    );
}

// --- what a terminal is sent ----------------------------------------

#[test]
fn a_frame_is_sent_as_escape_sequences() {
    let mut canvas = Canvas::new();
    assert_eq!(canvas.render(), "");
    canvas.clear();
    canvas.move_to(4, 9);
    for attribute in [
        Attribute::Bold,
        Attribute::Dim,
        Attribute::Underlined,
        Attribute::Reverse,
        Attribute::Reset,
    ] {
        canvas.set(attribute);
    }
    canvas.print("hé");
    assert_eq!(
        canvas.render(),
        "\u{1b}[2J\u{1b}[10;5H\u{1b}[1m\u{1b}[2m\u{1b}[4m\u{1b}[7m\u{1b}[0mhé"
    );
}

#[test]
fn an_empty_list_is_a_header_a_prompt_and_a_help_line() {
    let mut canvas = Canvas::new();
    let mut p = Picker::new(Vec::new());
    draw(&mut canvas, &mut p, None, Size { cols: 30, rows: 4 });
    let shown = canvas.render();
    assert!(
        shown.starts_with(
            "\u{1b}[2J\u{1b}[1;1H\u{1b}[1m\u{1b}[4m  WORKTREE  HEAD     STATUS   \u{1b}[0m"
        ),
        "{shown:?}"
    );
    assert!(
        shown.contains("\u{1b}[3;1H> \u{1b}[7m \u{1b}[0m\u{1b}[2mtype to filter\u{1b}[0m"),
        "{shown:?}"
    );
    assert!(shown.contains("  \u{1b}[2m0 worktrees\u{1b}[0m"), "{shown:?}");
    // No room is left for the optional hint.
    assert!(shown.contains("\u{1b}[4;1H\u{1b}[7m enter \u{1b}[0m cd"), "{shown:?}");

    // Two columns fewer, and the count would touch the prompt.
    let mut canvas = Canvas::new();
    draw(&mut canvas, &mut p, None, Size { cols: 28, rows: 4 });
    assert!(!canvas.render().contains("worktrees"));
}

#[test]
fn a_terminal_of_no_size_draws_no_rows() {
    let mut canvas = Canvas::new();
    let mut p = Picker::new(vec![item("hotfix", "/wt/hotfix")]);
    draw(&mut canvas, &mut p, Some("gone"), Size { cols: 0, rows: 0 });
    assert!(!canvas.render().contains("hotfix"));
}

#[test]
fn ascii_in_is_ascii_out() {
    let mut canvas = Canvas::new();
    let mut p = Picker::new(vec![item("hotfix", "/wt/hotfix"), item("auth", "/wt/auth")]);
    let size = Size { cols: 80, rows: 24 };
    draw(&mut canvas, &mut p, Some("removed `x`"), size);
    draw_confirm(&mut canvas, &p.items[0].worktree, true, false, size);
    draw_clean(
        &mut canvas,
        &vec![candidate("a", State::Dirty), candidate("b", State::Done)],
        &vec![true, false],
        1,
        true,
        size,
    );
    assert!(canvas.render().is_ascii());

    // What is not comes from a name, and nothing else does.
    let mut canvas = Canvas::new();
    p.items[0].name = "h\u{f6}tfix".to_string();
    draw(&mut canvas, &mut p, None, size);
    let odd: Vec<char> = canvas.render().chars().filter(|c| !c.is_ascii()).collect();
    assert_eq!(odd, ['\u{f6}']);
}

#[test]
fn frames_drawn_one_after_the_other_are_sent_that_way() {
    let mut one = Canvas::new();
    one.clear();
    one.print("a");
    let mut other = Canvas::new();
    other.move_to(0, 1);
    other.print("b");
    let mut both = Canvas::new();
    both.clear();
    both.print("a");
    both.move_to(0, 1);
    both.print("b");
    assert_eq!(both.render(), one.render() + &other.render());
}

// --- the help line --------------------------------------------------

#[test]
fn help_lines_fit_eighty_columns() {
    assert_eq!(hints_width(&hints_idle()), 69);
    assert_eq!(hints_width(&hints_filtering()), 76);
    assert_eq!(hints_width(&clean_hints()), 60);
    assert_eq!(hints_width(&Vec::new()), 0);
}

#[test]
fn the_width_of_a_help_line_is_what_it_takes_to_draw_it() {
    for hints in [hints_idle(), hints_filtering(), clean_hints()] {
        let mut canvas = Canvas::new();
        draw_hints(&mut canvas, &hints);
        let mut plain = canvas.render();
        for code in ["\u{1b}[7m", "\u{1b}[0m"] {
            plain = plain.replace(code, "");
        }
        assert_eq!(plain.chars().count(), hints_width(&hints));
    }
}

#[test]
fn only_optional_hints_are_dropped() {
    let p = Picker::new(Vec::new());
    for width in [0, 10, 50, 68, 69, 200] {
        let left = hints_that_fit(hints_for(&p), width);
        let required = left.iter().filter(|h| !h.optional).count();
        assert_eq!(required, 3, "{width}");
        assert_eq!(left.len(), if width < 69 { 3 } else { 4 }, "{width}");
    }
}

// --- the clean screen -----------------------------------------------

fn candidate(name: &str, state: State) -> Candidate {
    Candidate {
        worktree: worktree("/wt/x", Some(name)),
        name: name.to_string(),
        state,
        note: "why".to_string(),
    }
}

#[test]
fn finished_work_starts_out_ticked() {
    let list = vec![
        candidate("a", State::Local),
        candidate("b", State::Done),
        candidate("c", State::Pushed),
        candidate("d", State::Dirty),
        candidate("e", State::Done),
    ];
    assert_eq!(preselection(&list), [false, true, false, false, true]);
    let screen = Choosing::new(&list);
    assert_eq!(screen.cursor_at, 0);
    assert_eq!(chosen(&screen.ticked), [1, 4]);
}

#[test]
fn an_empty_screen_takes_every_key_but_space() {
    let mut ticked: Vec<bool> = Vec::new();
    let mut at: usize = 0;
    for code in [KeyCode::Up, KeyCode::Down, KeyCode::Other] {
        let step = clean_step(&KeyEvent::new(code, NO_MODIFIER), &mut ticked, &mut at);
        assert_eq!(step, CleanStep::Stay);
        assert_eq!(at, 0);
    }
    let mut repeat = KeyEvent::new(KeyCode::Esc, NO_MODIFIER);
    repeat.kind = KeyEventKind::Repeat;
    assert_eq!(clean_step(&repeat, &mut ticked, &mut at), CleanStep::Stay);
}

#[test]
fn a_row_of_the_clean_screen_lines_up_with_its_header() {
    let list = vec![candidate("a", State::Local)];
    let mut canvas = Canvas::new();
    draw_clean(&mut canvas, &list, &vec![true], 5, false, Size { cols: 40, rows: 9 });
    let shown = canvas.render();
    assert!(
        shown.contains("\u{1b}[3;1H\u{1b}[1m\u{1b}[4m      WORKTREE  SAFE TO REMOVE  NOTE    \u{1b}[0m"),
        "{shown:?}"
    );
    assert!(
        shown.contains("\u{1b}[4;1H  [x] a         yes (local)     why     \u{1b}[8;1H"),
        "{shown:?}"
    );
    assert!(shown.contains("\u{1b}[2m1 of 1 selected"), "{shown:?}");
}
