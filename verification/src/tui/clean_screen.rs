//! The multi-select screen behind `gwx clean`.
//!
//! Deliberately not the picker: that one exists to go somewhere and takes a
//! single choice, this one exists to remove things and takes many. Sharing one
//! widget would mean a mode flag threaded through every keystroke, and a list
//! where Enter sometimes moves you and sometimes deletes.

use vstd::prelude::*;
use vstd::string::*;

use crate::commands::clean::{
    candidate_models, candidate_names, candidate_verdicts, names_of, verdicts_of, Candidate,
    CandidateModel, State, NAME_HEADER, NOTE_HEADER, VERDICT_HEADER,
};
use crate::text::{column_width, decimal, fit, fitted, number, pad, padded, readings, widest};
use crate::tui::draw::{
    draw_hints, draw_line, from_bottom, hints_ops, lemma_drawable_add, lemma_hints_drawable,
    line_ops,
};
use crate::tui::hints::{
    clean_hints, cleaning_hints, fitting, hints_that_fit, law_help_lines_fit_eighty_columns,
};
use crate::tui::keys::{holds_control, with_control, KeyCode, KeyEvent, KeyEventKind};
use crate::tui::picker::indices;
use crate::tui::screen::{drawable, Attribute, Canvas, OpModel, Size};

verus! {

/// What the clean screen does after a key.
#[derive(Debug, Clone, Copy, PartialEq, Eq, Structural)]
pub enum CleanStep {
    Stay,
    Cancel,
    Accept,
}

/// What a key means on the clean screen.
#[derive(Debug, Clone, Copy, PartialEq, Eq, Structural)]
pub enum CleanKey {
    Cancel,
    Accept,
    Down,
    Up,
    Toggle,
    Ignore,
}

/// What a key means on the clean screen.
pub open spec fn clean_key(key: KeyEvent) -> CleanKey {
    let ctrl = with_control(key.modifiers);
    if key.kind != KeyEventKind::Press {
        CleanKey::Ignore
    } else {
        match key.code {
            KeyCode::Esc => CleanKey::Cancel,
            KeyCode::Enter => CleanKey::Accept,
            KeyCode::Down => CleanKey::Down,
            KeyCode::Up => CleanKey::Up,
            KeyCode::Char(c) => if ctrl && (c == 'c' || c == 'g') {
                CleanKey::Cancel
            } else if ctrl && c == 'n' {
                CleanKey::Down
            } else if ctrl && c == 'p' {
                CleanKey::Up
            } else if c == ' ' {
                CleanKey::Toggle
            } else {
                CleanKey::Ignore
            },
            _ => CleanKey::Ignore,
        }
    }
}

/// The last row of a list, or the first where there is none.
pub open spec fn last_row(len: nat) -> int {
    if len == 0 {
        0
    } else {
        len - 1
    }
}

/// One row further down, from the last to the first.
pub open spec fn below(at: int, len: nat) -> int {
    if at == last_row(len) {
        0
    } else {
        at + 1
    }
}

/// One row further up, from the first to the last.
pub open spec fn above(at: int, len: nat) -> int {
    if at == 0 {
        last_row(len)
    } else {
        at - 1
    }
}

/// What a key makes of the boxes and the cursor.
pub open spec fn clean_stepped(key: CleanKey, ticked: Seq<bool>, at: int) -> (
    CleanStep,
    Seq<bool>,
    int,
) {
    match key {
        CleanKey::Cancel => (CleanStep::Cancel, ticked, at),
        CleanKey::Accept => (CleanStep::Accept, ticked, at),
        CleanKey::Down => (CleanStep::Stay, ticked, below(at, ticked.len())),
        CleanKey::Up => (CleanStep::Stay, ticked, above(at, ticked.len())),
        CleanKey::Toggle => (CleanStep::Stay, ticked.update(at, !ticked[at]), at),
        CleanKey::Ignore => (CleanStep::Stay, ticked, at),
    }
}

/// Moves the cursor and ticks boxes; the caller owns the screen and the answer.
pub fn clean_step(key: &KeyEvent, ticked: &mut Vec<bool>, cursor_at: &mut usize) -> (r: CleanStep)
    requires
        clean_key(*key) == CleanKey::Toggle ==> *old(cursor_at) < old(ticked)@.len(),
        clean_key(*key) == CleanKey::Down ==> *old(cursor_at) == last_row(old(ticked)@.len())
            || *old(cursor_at) < usize::MAX,
    ensures
        (r, final(ticked)@, *final(cursor_at) as int) == clean_stepped(
            clean_key(*key),
            old(ticked)@,
            *old(cursor_at) as int,
        ),
{
    // Some terminals report both press and release; act on press only.
    if key.kind != KeyEventKind::Press {
        return CleanStep::Stay;
    }
    let last: usize = ticked.len().saturating_sub(1);
    let ctrl = holds_control(key.modifiers);
    let at: usize = *cursor_at;
    // Both ends wrap, so a list you have scrolled past is one key away from the
    // other end rather than a dead stop.
    let mut down = false;
    let mut up = false;
    match key.code {
        KeyCode::Esc => return CleanStep::Cancel,
        KeyCode::Char('c') if ctrl => return CleanStep::Cancel,
        KeyCode::Char('g') if ctrl => return CleanStep::Cancel,
        KeyCode::Enter => return CleanStep::Accept,
        KeyCode::Down => down = true,
        KeyCode::Char('n') if ctrl => down = true,
        KeyCode::Up => up = true,
        KeyCode::Char('p') if ctrl => up = true,
        KeyCode::Char(' ') => {
            let on: bool = ticked[at];
            ticked.set(at, !on);
        },
        _ => {},
    }
    if down {
        *cursor_at = if at == last {
            0
        } else {
            at + 1
        };
    } else if up {
        *cursor_at = if at == 0 {
            last
        } else {
            at - 1
        };
    }
    CleanStep::Stay
}

/// The boxes that are ticked, from the first `n`.
pub open spec fn ticked_upto(ticked: Seq<bool>, n: nat) -> Seq<int>
    decreases n,
{
    if n == 0 {
        Seq::empty()
    } else if ticked[n - 1] {
        ticked_upto(ticked, (n - 1) as nat).push(n - 1)
    } else {
        ticked_upto(ticked, (n - 1) as nat)
    }
}

/// The indices of the ticked boxes, in order.
pub open spec fn ticked_indices(ticked: Seq<bool>) -> Seq<int> {
    ticked_upto(ticked, ticked.len())
}

/// The indices of the ticked boxes, in order.
pub fn chosen(ticked: &Vec<bool>) -> (r: Vec<usize>)
    ensures
        indices(r@) == ticked_indices(ticked@),
        forall|k: int| 0 <= k < r@.len() ==> #[trigger] r@[k] < ticked@.len(),
{
    let mut r: Vec<usize> = Vec::new();
    assert(indices(r@) =~= ticked_upto(ticked@, 0));
    for i in 0..ticked.len()
        invariant
            indices(r@) == ticked_upto(ticked@, i as nat),
            forall|k: int| 0 <= k < r@.len() ==> #[trigger] r@[k] < ticked@.len(),
    {
        let ghost before = indices(r@);
        if ticked[i] {
            r.push(i);
            assert(indices(r@) =~= before.push(i as int));
        }
    }
    r
}

/// The boxes the screen opens with: those whose work is finished are ticked.
pub open spec fn opening_boxes(list: Seq<CandidateModel>) -> Seq<bool> {
    list.map_values(|c: CandidateModel| c.state == State::Done)
}

/// The boxes the screen opens with: those whose work is finished are ticked.
pub fn preselection(candidates: &Vec<Candidate>) -> (r: Vec<bool>)
    ensures
        r@ == opening_boxes(candidate_models(candidates@)),
        r@.len() == candidates@.len(),
{
    let mut r: Vec<bool> = Vec::new();
    for i in 0..candidates.len()
        invariant
            r@.len() == i,
            forall|j: int|
                0 <= j < i ==> (#[trigger] r@[j] <==> candidates@[j].state == State::Done),
    {
        r.push(candidates[i].state.preselected());
    }
    assert(r@ =~= opening_boxes(candidate_models(candidates@)));
    r
}

/// The state of the screen while it is open.
#[derive(Debug)]
pub struct Choosing {
    pub ticked: Vec<bool>,
    pub cursor_at: usize,
}

/// What a key comes to.
#[derive(Debug)]
pub enum Choice {
    /// The screen stays open.
    Waiting,
    /// The user backed out.
    Cancelled,
    /// These are to be removed.
    Accepted(Vec<usize>),
}

impl Choosing {
    /// There is a box under the cursor.
    pub open spec fn wf(&self) -> bool {
        self.cursor_at < self.ticked@.len()
    }

    /// Opens the screen, the finished work ticked and the cursor at the top.
    pub fn new(candidates: &Vec<Candidate>) -> (r: Choosing)
        requires
            candidates@.len() > 0,
        ensures
            r.wf(),
            r.cursor_at == 0,
            r.ticked@ == opening_boxes(candidate_models(candidates@)),
            r.ticked@.len() == candidates@.len(),
    {
        Choosing { ticked: preselection(candidates), cursor_at: 0 }
    }
}

/// Takes a key while the screen is open. Accepting hands over the indices of
/// the ticked boxes.
pub fn choose_to_clean(screen: &mut Choosing, key: &KeyEvent) -> (r: Choice)
    requires
        old(screen).wf(),
    ensures
        final(screen).wf(),
        final(screen).ticked@.len() == old(screen).ticked@.len(),
        ({
            let (step, ticked, at) = clean_stepped(
                clean_key(*key),
                old(screen).ticked@,
                old(screen).cursor_at as int,
            );
            &&& final(screen).ticked@ == ticked
            &&& final(screen).cursor_at == at
            &&& match step {
                CleanStep::Stay => r is Waiting,
                CleanStep::Cancel => r is Cancelled,
                CleanStep::Accept => r matches Choice::Accepted(list) && indices(list@)
                    == ticked_indices(ticked) && (forall|k: int|
                    0 <= k < list@.len() ==> #[trigger] list@[k] < ticked.len()),
            }
        }),
{
    let boxes: usize = screen.ticked.len();
    assert(screen.cursor_at < boxes);
    match clean_step(key, &mut screen.ticked, &mut screen.cursor_at) {
        CleanStep::Stay => Choice::Waiting,
        CleanStep::Cancel => Choice::Cancelled,
        CleanStep::Accept => Choice::Accepted(chosen(&screen.ticked)),
    }
}

/// What the screen asks.
pub const QUESTION: &'static str = "Select worktrees to remove";

/// How wide the name column is.
pub open spec fn clean_name_width(list: Seq<CandidateModel>) -> nat {
    column_width(candidate_names(list), NAME_HEADER@)
}

/// How wide the verdict column is.
pub open spec fn clean_verdict_width(list: Seq<CandidateModel>, with_branch: bool) -> nat {
    column_width(candidate_verdicts(list, with_branch), VERDICT_HEADER@)
}

/// The column labels, clear of the boxes.
pub open spec fn clean_header(name_width: nat, verdict_width: nat) -> Seq<char> {
    "      "@ + padded(NAME_HEADER@, name_width) + "  "@ + padded(VERDICT_HEADER@, verdict_width)
        + "  "@ + NOTE_HEADER@
}

/// One row: the cursor, the box, and what is known about the worktree.
pub open spec fn clean_row(
    under_cursor: bool,
    on: bool,
    name: Seq<char>,
    name_width: nat,
    verdict: Seq<char>,
    verdict_width: nat,
    note: Seq<char>,
) -> Seq<char> {
    let cursor = if under_cursor {
        ">"@
    } else {
        " "@
    };
    let mark = if on {
        "x"@
    } else {
        " "@
    };
    cursor + " ["@ + mark + "] "@ + padded(name, name_width) + "  "@ + padded(
        verdict,
        verdict_width,
    ) + "  "@ + note
}

/// How many candidates there is room for, between the header and the tally.
pub open spec fn clean_rows(len: nat, rows: u16) -> nat {
    let room = rows - 5;
    if room <= 0 {
        0
    } else if room < len {
        room as nat
    } else {
        len
    }
}

/// The line of one candidate, highlighted where the cursor is.
pub open spec fn clean_row_ops(
    list: Seq<CandidateModel>,
    ticked: Seq<bool>,
    cursor_at: int,
    with_branch: bool,
    i: int,
    cols: nat,
) -> Seq<OpModel> {
    line_ops(
        (3 + i) as u16,
        fitted(
            clean_row(
                i == cursor_at,
                ticked[i],
                candidate_names(list)[i],
                clean_name_width(list),
                candidate_verdicts(list, with_branch)[i],
                clean_verdict_width(list, with_branch),
                list[i].note,
            ),
            cols,
        ),
        i == cursor_at,
    )
}

/// The lines of the first `n` candidates.
pub open spec fn clean_rows_ops(
    list: Seq<CandidateModel>,
    ticked: Seq<bool>,
    cursor_at: int,
    with_branch: bool,
    n: nat,
    cols: nat,
) -> Seq<OpModel>
    decreases n,
{
    if n == 0 {
        Seq::empty()
    } else {
        clean_rows_ops(list, ticked, cursor_at, with_branch, (n - 1) as nat, cols) + clean_row_ops(
            list,
            ticked,
            cursor_at,
            with_branch,
            n - 1,
            cols,
        )
    }
}

/// The question and the column labels, on a cleared screen.
pub open spec fn clean_head_ops(header: Seq<char>) -> Seq<OpModel> {
    seq![
        OpModel::Clear,
        OpModel::MoveTo(0, 0),
        OpModel::Print(QUESTION@),
        OpModel::MoveTo(0, 2),
        OpModel::Style(Attribute::Bold),
        OpModel::Style(Attribute::Underlined),
        OpModel::Print(header),
        OpModel::Style(Attribute::Reset),
    ]
}

/// How many boxes are ticked.
pub open spec fn tally(ticked: Seq<bool>, len: nat) -> Seq<char> {
    decimal(ticked_indices(ticked).len()) + " of "@ + decimal(len) + " selected"@
}

/// The tally and the help line.
pub open spec fn clean_foot_ops(ticked: Seq<bool>, len: nat, size: Size) -> Seq<OpModel> {
    seq![
        OpModel::MoveTo(0, from_bottom(size.rows, 2)),
        OpModel::Style(Attribute::Dim),
        OpModel::Print(fitted(tally(ticked, len), size.cols as nat)),
        OpModel::Style(Attribute::Reset),
        OpModel::MoveTo(0, from_bottom(size.rows, 1)),
    ] + hints_ops(fitting(cleaning_hints(), size.cols as nat))
}

/// A whole frame of the clean screen.
pub open spec fn clean_ops(
    list: Seq<CandidateModel>,
    ticked: Seq<bool>,
    cursor_at: int,
    with_branch: bool,
    size: Size,
) -> Seq<OpModel> {
    let cols = size.cols as nat;
    let header = clean_header(clean_name_width(list), clean_verdict_width(list, with_branch));
    clean_head_ops(fitted(header, cols)) + clean_rows_ops(
        list,
        ticked,
        cursor_at,
        with_branch,
        clean_rows(list.len(), size.rows),
        cols,
    ) + clean_foot_ops(ticked, list.len(), size)
}

fn clean_line(
    under_cursor: bool,
    on: bool,
    name: &str,
    name_width: usize,
    verdict: &str,
    verdict_width: usize,
    note: &str,
) -> (r: String)
    ensures
        r@ == clean_row(
            under_cursor,
            on,
            name@,
            name_width as nat,
            verdict@,
            verdict_width as nat,
            note@,
        ),
{
    let cursor = if under_cursor {
        ">"
    } else {
        " "
    };
    let mark = if on {
        "x"
    } else {
        " "
    };
    cursor.to_string().concat(" [").concat(mark).concat("] ").concat(
        pad(name, name_width).as_str(),
    ).concat("  ").concat(pad(verdict, verdict_width).as_str()).concat("  ").concat(note)
}

fn draw_clean_head(out: &mut Canvas, name_width: usize, verdict_width: usize, cols: usize)
    ensures
        final(out)@ == old(out)@ + clean_head_ops(
            fitted(clean_header(name_width as nat, verdict_width as nat), cols as nat),
        ),
{
    let header = fit(
        "      ".to_string().concat(pad(NAME_HEADER, name_width).as_str()).concat("  ").concat(
            pad(VERDICT_HEADER, verdict_width).as_str(),
        ).concat("  ").concat(NOTE_HEADER).as_str(),
        cols,
    );
    out.clear();
    out.move_to(0, 0);
    out.print(QUESTION);
    out.move_to(0, 2);
    out.set(Attribute::Bold);
    out.set(Attribute::Underlined);
    out.print(header.as_str());
    out.set(Attribute::Reset);
    assert(out@ =~= old(out)@ + clean_head_ops(header@));
}

fn draw_clean_rows(
    out: &mut Canvas,
    candidates: &Vec<Candidate>,
    ticked: &Vec<bool>,
    cursor_at: usize,
    with_branch: bool,
    verdicts: &Vec<String>,
    widths: (usize, usize),
    size: Size,
)
    requires
        clean_rows(candidates@.len(), size.rows) <= ticked@.len(),
        readings(verdicts@) == candidate_verdicts(candidate_models(candidates@), with_branch),
        widths.0 == clean_name_width(candidate_models(candidates@)),
        widths.1 == clean_verdict_width(candidate_models(candidates@), with_branch),
    ensures
        final(out)@ == old(out)@ + clean_rows_ops(
            candidate_models(candidates@),
            ticked@,
            cursor_at as int,
            with_branch,
            clean_rows(candidates@.len(), size.rows),
            size.cols as nat,
        ),
{
    let ghost start = out@;
    let ghost list = candidate_models(candidates@);
    let ghost at = cursor_at as int;
    let ghost cols = size.cols as nat;
    assert(readings(verdicts@).len() == candidates@.len());
    assert(out@ =~= start + clean_rows_ops(list, ticked@, at, with_branch, 0, cols));
    let room: usize = size.rows.saturating_sub(5) as usize;
    let mut i: usize = 0;
    while i < room && i < candidates.len()
        invariant
            list == candidate_models(candidates@),
            at == cursor_at,
            cols == size.cols,
            room == from_bottom(size.rows, 5),
            clean_rows(candidates@.len(), size.rows) <= ticked@.len(),
            verdicts@.len() == candidates@.len(),
            readings(verdicts@) == candidate_verdicts(list, with_branch),
            widths.0 == clean_name_width(list),
            widths.1 == clean_verdict_width(list, with_branch),
            i <= clean_rows(candidates@.len(), size.rows),
            out@ == start + clean_rows_ops(list, ticked@, at, with_branch, i as nat, cols),
        decreases room - i,
    {
        let candidate = &candidates[i];
        assert(readings(verdicts@)[i as int] == verdicts@[i as int]@);
        assert(candidate_names(list)[i as int] == candidate.name@);
        let line = fit(
            clean_line(
                i == cursor_at,
                ticked[i],
                candidate.name.as_str(),
                widths.0,
                verdicts[i].as_str(),
                widths.1,
                candidate.note.as_str(),
            ).as_str(),
            size.cols,
        );
        draw_line(out, i as u16 + 3, line.as_str(), i == cursor_at);
        i += 1;
        assert(out@ =~= start + clean_rows_ops(list, ticked@, at, with_branch, i as nat, cols));
    }
    assert(i == clean_rows(candidates@.len(), size.rows));
}

fn draw_clean_foot(out: &mut Canvas, ticked: &Vec<bool>, len: usize, size: Size)
    ensures
        final(out)@ == old(out)@ + clean_foot_ops(ticked@, len as nat, size),
{
    let list = chosen(ticked);
    assert(indices(list@).len() == list@.len());
    let count: usize = list.len();
    out.move_to(0, size.rows.saturating_sub(2));
    out.set(Attribute::Dim);
    out.print(
        fit(
            number(count).concat(" of ").concat(number(len).as_str()).concat(" selected").as_str(),
            size.cols,
        ).as_str(),
    );
    out.set(Attribute::Reset);
    out.move_to(0, size.rows.saturating_sub(1));
    proof {
        law_help_lines_fit_eighty_columns();
    }
    draw_hints(out, &hints_that_fit(clean_hints(), size.cols));
    assert(out@ =~= old(out)@ + clean_foot_ops(ticked@, len as nat, size));
}

/// Draws the clean screen.
pub fn draw_clean(
    out: &mut Canvas,
    candidates: &Vec<Candidate>,
    ticked: &Vec<bool>,
    cursor_at: usize,
    with_branch: bool,
    size: Size,
)
    requires
        clean_rows(candidates@.len(), size.rows) <= ticked@.len(),
    ensures
        final(out)@ == old(out)@ + clean_ops(
            candidate_models(candidates@),
            ticked@,
            cursor_at as int,
            with_branch,
            size,
        ),
        drawable(old(out)@) ==> drawable(final(out)@),
{
    let ghost start = out@;
    let ghost list = candidate_models(candidates@);
    let verdicts = verdicts_of(candidates, with_branch);
    let width: usize = widest(&names_of(candidates), NAME_HEADER);
    let verdict_width: usize = widest(&verdicts, VERDICT_HEADER);

    draw_clean_head(out, width, verdict_width, size.cols);
    draw_clean_rows(
        out,
        candidates,
        ticked,
        cursor_at,
        with_branch,
        &verdicts,
        (width, verdict_width),
        size,
    );
    draw_clean_foot(out, ticked, candidates.len(), size);
    proof {
        let head = clean_head_ops(
            fitted(clean_header(width as nat, verdict_width as nat), size.cols as nat),
        );
        let rows = clean_rows_ops(
            list,
            ticked@,
            cursor_at as int,
            with_branch,
            clean_rows(candidates@.len(), size.rows),
            size.cols as nat,
        );
        let foot = clean_foot_ops(ticked@, candidates@.len(), size);
        lemma_clean_parts(start, head, rows, foot);
        lemma_clean_rows_drawable(
            list,
            ticked@,
            cursor_at as int,
            with_branch,
            clean_rows(candidates@.len(), size.rows),
            size.cols as nat,
        );
        assert(drawable(head));
        lemma_hints_drawable(fitting(cleaning_hints(), size.cols as nat));
        assert(drawable(foot));
        lemma_drawable_add(head, rows);
        lemma_drawable_add(head + rows, foot);
        lemma_drawable_add(start, head + rows + foot);
    }
}

proof fn lemma_clean_parts(
    start: Seq<OpModel>,
    head: Seq<OpModel>,
    rows: Seq<OpModel>,
    foot: Seq<OpModel>,
)
    ensures
        start + head + rows + foot == start + (head + rows + foot),
{
    assert(start + head + rows + foot =~= start + (head + rows + foot));
}

proof fn lemma_clean_rows_drawable(
    list: Seq<CandidateModel>,
    ticked: Seq<bool>,
    cursor_at: int,
    with_branch: bool,
    n: nat,
    cols: nat,
)
    requires
        n <= u16::MAX - 5,
    ensures
        drawable(clean_rows_ops(list, ticked, cursor_at, with_branch, n, cols)),
    decreases n,
{
    if n > 0 {
        lemma_clean_rows_drawable(list, ticked, cursor_at, with_branch, (n - 1) as nat, cols);
        assert(drawable(clean_row_ops(list, ticked, cursor_at, with_branch, n - 1, cols)));
    }
}

/// The chosen indices are exactly those of the ticked boxes, each once and in
/// order.
pub proof fn law_chosen_are_the_ticked(ticked: Seq<bool>, n: nat)
    requires
        n <= ticked.len(),
    ensures
        forall|k: int|
            0 <= k < ticked_upto(ticked, n).len() ==> 0 <= #[trigger] ticked_upto(ticked, n)[k]
                < n && ticked[ticked_upto(ticked, n)[k]],
        forall|j: int, k: int|
            0 <= j < k < ticked_upto(ticked, n).len() ==> #[trigger] ticked_upto(ticked, n)[j]
                < #[trigger] ticked_upto(ticked, n)[k],
        forall|i: int|
            0 <= i < n && ticked[i] ==> #[trigger] ticked_upto(ticked, n).contains(i),
    decreases n,
{
    if n > 0 {
        law_chosen_are_the_ticked(ticked, (n - 1) as nat);
        let front = ticked_upto(ticked, (n - 1) as nat);
        let all = ticked_upto(ticked, n);
        assert forall|i: int| 0 <= i < n && ticked[i] implies #[trigger] all.contains(i) by {
            if i == n - 1 {
                assert(all[all.len() - 1] == i);
            } else {
                assert(front.contains(i));
                let k = choose|k: int| 0 <= k < front.len() && front[k] == i;
                assert(all[k] == i);
            }
        }
    }
}

/// The cursor wraps at both ends, and down and up undo each other.
pub proof fn law_clean_cursor_wraps(at: int, len: nat)
    requires
        0 <= at < len,
    ensures
        0 <= below(at, len) < len,
        0 <= above(at, len) < len,
        above(below(at, len), len) == at,
        below(above(at, len), len) == at,
        below(len - 1, len) == 0,
        above(0, len) == len - 1,
{
}

/// Ticking a box twice leaves it as it was, and touches no other.
pub proof fn law_ticking_twice_changes_nothing(ticked: Seq<bool>, at: int)
    requires
        0 <= at < ticked.len(),
    ensures
        clean_stepped(
            CleanKey::Toggle,
            clean_stepped(CleanKey::Toggle, ticked, at).1,
            at,
        ).1 == ticked,
{
    assert(clean_stepped(
        CleanKey::Toggle,
        clean_stepped(CleanKey::Toggle, ticked, at).1,
        at,
    ).1 =~= ticked);
}

/// The boxes and the cursor after these keys, one after the other.
pub open spec fn pressed(keys: Seq<KeyEvent>, ticked: Seq<bool>, at: int) -> (Seq<bool>, int)
    decreases keys.len(),
{
    if keys.len() == 0 {
        (ticked, at)
    } else {
        let (boxes, cursor) = pressed(keys.drop_last(), ticked, at);
        let next = clean_stepped(clean_key(keys.last()), boxes, cursor);
        (next.1, next.2)
    }
}

/// How often these keys toggle the box at `i`.
pub open spec fn toggles(keys: Seq<KeyEvent>, ticked: Seq<bool>, at: int, i: int) -> nat
    decreases keys.len(),
{
    if keys.len() == 0 {
        0
    } else {
        toggles(keys.drop_last(), ticked, at, i) + if clean_key(keys.last()) == CleanKey::Toggle
            && pressed(keys.drop_last(), ticked, at).1 == i {
            1nat
        } else {
            0
        }
    }
}

proof fn lemma_boxes_after(keys: Seq<KeyEvent>, ticked: Seq<bool>, at: int, i: int)
    requires
        0 <= at < ticked.len(),
        0 <= i < ticked.len(),
    ensures
        pressed(keys, ticked, at).0.len() == ticked.len(),
        0 <= pressed(keys, ticked, at).1 < ticked.len(),
        pressed(keys, ticked, at).0[i] == (ticked[i] != (toggles(keys, ticked, at, i) % 2 == 1)),
    decreases keys.len(),
{
    if keys.len() > 0 {
        lemma_boxes_after(keys.drop_last(), ticked, at, i);
    }
}

/// Whatever was pressed, the cursor is still on a row, a box is ticked exactly
/// when its work is finished or it was toggled, but not when both: toggling an
/// even number of times comes to nothing. Accepting then hands over exactly the
/// ticked boxes.
pub proof fn law_accepted_are_the_finished_but_for_the_toggled(
    list: Seq<CandidateModel>,
    keys: Seq<KeyEvent>,
    i: int,
)
    requires
        0 <= i < list.len(),
    ensures
        ({
            let start = opening_boxes(list);
            let (boxes, cursor) = pressed(keys, start, 0);
            let ticked = (list[i].state == State::Done) != (toggles(keys, start, 0, i) % 2 == 1);
            &&& boxes.len() == list.len()
            &&& 0 <= cursor < list.len()
            &&& boxes[i] == ticked
            &&& ticked_indices(boxes).contains(i) == ticked
        }),
{
    let start = opening_boxes(list);
    lemma_boxes_after(keys, start, 0, i);
    let boxes = pressed(keys, start, 0).0;
    law_chosen_are_the_ticked(boxes, boxes.len());
    if ticked_indices(boxes).contains(i) {
        let k = choose|k: int|
            0 <= k < ticked_indices(boxes).len() && ticked_indices(boxes)[k] == i;
        assert(boxes[ticked_indices(boxes)[k]]);
    }
}

/// No key but space changes a box, and no key ticks more than the one under
/// the cursor.
pub proof fn law_only_space_ticks_and_only_one(key: CleanKey, ticked: Seq<bool>, at: int, i: int)
    requires
        0 <= at < ticked.len(),
        0 <= i < ticked.len(),
        key != CleanKey::Toggle || i != at,
    ensures
        clean_stepped(key, ticked, at).1[i] == ticked[i],
{
}

} // verus!
