//! What a person sees of the dialog, of the clean screen, and while work is done.

use vstd::prelude::*;

use crate::commands::clean::{
    candidate_models, candidate_names, candidate_verdicts, table_line, Candidate, CandidateModel,
    State,
};
use crate::commands::clean_laws::{lemma_three_columns, three_columns};
use crate::git::Worktree;
use crate::path::lossy;
use crate::text::{decimal, fitted};
use crate::text_laws::{is_widest, lemma_decimal_reads, lemma_widest_is_the_width, reads_as};
use crate::tui::clean_screen::{
    chosen, clean_foot_ops, clean_head_ops, clean_header, clean_name_width, clean_ops, clean_row,
    clean_row_ops, clean_rows, clean_rows_ops, clean_verdict_width, draw_clean, tally,
};
use crate::tui::dialog::{dialog_ops, draw_confirm, working, working_ops};
use crate::tui::draw::{from_bottom, hints_ops, line_ops};
use crate::tui::hints::{clean_hints, cleaning_hints, fitting, hint_models, hints_that_fit, Hint};
use crate::tui::picker::indices;
use crate::tui::screen::{Attribute, Canvas, OpModel, Size};
use crate::tui::terminal::{
    blank_line, dimmed, heading, lemma_no_cells, lemma_show_add, lemma_show_none, lit, no_cells,
    on_row, plain, reversed, show, Cells, Line,
};
use crate::tui::terminal_laws::{
    edge_to_edge, help_cells, lemma_fitted, lemma_show_help, lemma_show_labels, lemma_show_line,
    lemma_show_one, lemma_show_styled,
};

verus! {

// --- the dialog ---------------------------------------------------------------

/// A text on a line of its own.
proof fn lemma_show_text(at: u16, text: Seq<char>, row: int, line: Line)
    requires
        line.look == plain(),
    ensures
        show(seq![OpModel::MoveTo(0, at), OpModel::Print(text)], row, line) == (Line {
            pen: at as int,
            look: plain(),
            cells: if at == row {
                lit(text, plain())
            } else {
                line.cells
            },
        }),
{
    lemma_show_line(at, text, false, row, line);
    assert(line_ops(at, text, false) =~= seq![OpModel::MoveTo(0, at), OpModel::Print(text)]);
}

/// The dialog asks about the worktree by its path. It warns where changes would
/// be lost, says whether the branch is merged where there is one, and ends with
/// the keys, `b` among them only where there is a branch.
pub proof fn law_the_dialog_on_screen(
    out: &mut Canvas,
    worktree: &Worktree,
    dirty: bool,
    merged: bool,
    size: Size,
    r: (),
    row: int,
)
    requires
        call_ensures(draw_confirm, (out, worktree, dirty, merged, size), r),
        old(out)@.len() == 0,
        size.rows > 6,
        0 <= row < size.rows,
    ensures
        ({
            let about = if dirty {
                5int
            } else {
                4int
            };
            on_row(final(out)@, row) == if row == 0 {
                lit("Remove this worktree?"@, plain())
            } else if row == 2 {
                lit("  "@ + lossy(worktree.path.bytes@), plain())
            } else if row == 4 && dirty {
                lit("  ! uncommitted changes will be lost"@, plain())
            } else if row == about && worktree.branch is Some {
                lit(
                    "  branch `"@ + worktree.branch->0@ + "` ("@ + (if merged {
                        "merged"@
                    } else {
                        "NOT merged"@
                    }) + ")"@,
                    plain(),
                )
            } else if row == size.rows - 1 {
                lit(
                    if worktree.branch is Some {
                        "[y] remove worktree   [b] remove worktree and branch   [n] cancel"@
                    } else {
                        "[y] remove worktree   [n] cancel"@
                    },
                    plain(),
                )
            } else {
                no_cells()
            }
        }),
{
    let start = blank_line();
    let question = "Remove this worktree?"@;
    let path = "  "@ + lossy(worktree.path.bytes@);
    let a = seq![OpModel::Clear];
    let b = seq![OpModel::MoveTo(0, 0), OpModel::Print(question)];
    let c = seq![OpModel::MoveTo(0, 2), OpModel::Print(path)];
    let lost = "  ! uncommitted changes will be lost"@;
    let d = if dirty {
        seq![OpModel::MoveTo(0, 4), OpModel::Print(lost)]
    } else {
        Seq::empty()
    };
    let about: u16 = if dirty {
        5
    } else {
        4
    };
    let told = "  branch `"@ + worktree.branch->0@ + "` ("@ + (if merged {
        "merged"@
    } else {
        "NOT merged"@
    }) + ")"@;
    let e = if worktree.branch is Some {
        seq![OpModel::MoveTo(0, about), OpModel::Print(told)]
    } else {
        Seq::empty()
    };
    let keys = if worktree.branch is Some {
        "[y] remove worktree   [b] remove worktree and branch   [n] cancel"@
    } else {
        "[y] remove worktree   [n] cancel"@
    };
    let f = seq![OpModel::MoveTo(0, from_bottom(size.rows, 1)), OpModel::Print(keys)];
    lemma_show_one(OpModel::Clear, row, start);
    let la = show(a, row, start);
    lemma_show_add(a, b, row, start);
    lemma_show_text(0, question, row, la);
    let lb = show(a + b, row, start);
    lemma_show_add(a + b, c, row, start);
    lemma_show_text(2, path, row, lb);
    let lc = show(a + b + c, row, start);
    lemma_show_add(a + b + c, d, row, start);
    lemma_show_text(4, lost, row, lc);
    lemma_show_none(row, lc);
    let ld = show(a + b + c + d, row, start);
    lemma_show_add(a + b + c + d, e, row, start);
    lemma_show_text(about, told, row, ld);
    lemma_show_none(row, ld);
    let le = show(a + b + c + d + e, row, start);
    lemma_show_add(a + b + c + d + e, f, row, start);
    lemma_show_text(from_bottom(size.rows, 1), keys, row, le);
    let drawn = dialog_ops(worktree@, dirty, merged, size.rows);
    assert(a + b + c =~= seq![
        OpModel::Clear,
        OpModel::MoveTo(0, 0),
        OpModel::Print(question),
        OpModel::MoveTo(0, 2),
        OpModel::Print(path),
    ]);
    assert(worktree@.branch is Some <==> worktree.branch is Some);
    assert(drawn =~= a + b + c + d + e + f);
    assert(old(out)@ + drawn =~= drawn);
}

/// While work is done the screen says what it is, and nothing else.
pub proof fn law_work_on_screen(out: &mut Canvas, what: &str, size: Size, r: (), row: int)
    requires
        call_ensures(working, (out, what, size), r),
        old(out)@.len() == 0,
        size.rows > 1,
        0 <= row < size.rows,
    ensures
        on_row(final(out)@, row) == if row == 0 {
            lit(what@, plain())
        } else {
            no_cells()
        },
{
    let start = blank_line();
    let a = seq![OpModel::Clear];
    let b = seq![OpModel::MoveTo(0, 0), OpModel::Print(what@)];
    let c = seq![OpModel::MoveTo(0, from_bottom(size.rows, 1))];
    lemma_show_one(OpModel::Clear, row, start);
    lemma_show_add(a, b, row, start);
    lemma_show_text(0, what@, row, show(a, row, start));
    lemma_show_add(a + b, c, row, start);
    lemma_show_one(
        OpModel::MoveTo(0, from_bottom(size.rows, 1)),
        row,
        show(a + b, row, start),
    );
    let drawn = working_ops(what@, size.rows);
    assert(drawn =~= a + b + c);
    assert(old(out)@ + drawn =~= drawn);
}

// --- the clean screen ---------------------------------------------------------

/// A candidate's line: the cursor, the box, and the candidate in its columns.
pub open spec fn box_line(
    line: Seq<char>,
    under_cursor: bool,
    on: bool,
    name: Seq<char>,
    name_width: int,
    verdict: Seq<char>,
    verdict_width: int,
    note: Seq<char>,
) -> bool {
    &&& line.len() >= 6
    &&& line[0] == if under_cursor {
        '>'
    } else {
        ' '
    }
    &&& line[1] == ' '
    &&& line[2] == '['
    &&& line[3] == if on {
        'x'
    } else {
        ' '
    }
    &&& line[4] == ']'
    &&& line[5] == ' '
    &&& three_columns(line.skip(6), name, name_width, verdict, verdict_width, note)
}

/// A candidate's line, drawn across the whole screen.
pub open spec fn box_on_screen(
    cells: Cells,
    cols: int,
    under_cursor: bool,
    on: bool,
    name: Seq<char>,
    name_width: int,
    verdict: Seq<char>,
    verdict_width: int,
    note: Seq<char>,
) -> bool {
    exists|line: Seq<char>, shown: Seq<char>|
        box_line(line, under_cursor, on, name, name_width, verdict, verdict_width, note)
            && #[trigger] edge_to_edge(shown, line, cols) && cells == lit(
            shown,
            if under_cursor {
                reversed()
            } else {
                plain()
            },
        )
}

proof fn lemma_box_line(
    under_cursor: bool,
    on: bool,
    name: Seq<char>,
    name_width: nat,
    verdict: Seq<char>,
    verdict_width: nat,
    note: Seq<char>,
)
    requires
        name.len() <= name_width,
        verdict.len() <= verdict_width,
    ensures
        box_line(
            clean_row(under_cursor, on, name, name_width, verdict, verdict_width, note),
            under_cursor,
            on,
            name,
            name_width as int,
            verdict,
            verdict_width as int,
            note,
        ),
{
    reveal_strlit(">");
    reveal_strlit(" ");
    reveal_strlit(" [");
    reveal_strlit("x");
    reveal_strlit("] ");
    let line = clean_row(under_cursor, on, name, name_width, verdict, verdict_width, note);
    let rest = table_line(name, name_width, verdict, verdict_width, note);
    lemma_three_columns(name, name_width, verdict, verdict_width, note);
    assert(line.skip(6) =~= rest);
}

/// The labels, drawn across the whole screen and clear of the boxes.
pub open spec fn labels_on_screen(
    cells: Cells,
    cols: int,
    name_width: int,
    verdict_width: int,
) -> bool {
    exists|line: Seq<char>, shown: Seq<char>|
        line.len() >= 6 && (forall|i: int| 0 <= i < 6 ==> line[i] == ' ') && three_columns(
            line.skip(6),
            "WORKTREE"@,
            name_width,
            "SAFE TO REMOVE"@,
            verdict_width,
            "NOTE"@,
        ) && #[trigger] edge_to_edge(shown, line, cols) && cells == lit(shown, heading())
}

proof fn lemma_labels(name_width: nat, verdict_width: nat, cols: nat)
    requires
        "WORKTREE"@.len() <= name_width,
        "SAFE TO REMOVE"@.len() <= verdict_width,
    ensures
        labels_on_screen(
            lit(fitted(clean_header(name_width, verdict_width), cols), heading()),
            cols as int,
            name_width as int,
            verdict_width as int,
        ),
{
    reveal_strlit("      ");
    let line = clean_header(name_width, verdict_width);
    let rest = table_line(
        "WORKTREE"@,
        name_width,
        "SAFE TO REMOVE"@,
        verdict_width,
        "NOTE"@,
    );
    lemma_three_columns("WORKTREE"@, name_width, "SAFE TO REMOVE"@, verdict_width, "NOTE"@);
    assert(line.skip(6) =~= rest);
    lemma_fitted(line, cols);
}

/// What is on the line of a candidate.
spec fn box_cells(
    list: Seq<CandidateModel>,
    ticked: Seq<bool>,
    cursor_at: int,
    with_branch: bool,
    i: int,
    cols: nat,
) -> Cells {
    lit(
        fitted(
            clean_row(
                i == cursor_at,
                ticked[i],
                candidate_names(list)[i],
                clean_name_width(list),
                candidate_verdicts(list, with_branch)[i],
                clean_verdict_width(list, with_branch),
                list[i].note,
            ),
            cols,
        ),
        if i == cursor_at {
            reversed()
        } else {
            plain()
        },
    )
}

proof fn lemma_show_boxes(
    list: Seq<CandidateModel>,
    ticked: Seq<bool>,
    cursor_at: int,
    with_branch: bool,
    n: nat,
    cols: nat,
    row: int,
    line: Line,
)
    requires
        line.look == plain(),
        n + 3 <= u16::MAX,
    ensures
        ({
            let after = show(
                clean_rows_ops(list, ticked, cursor_at, with_branch, n, cols),
                row,
                line,
            );
            &&& after.look == plain()
            &&& after.cells == if 3 <= row < 3 + n {
                box_cells(list, ticked, cursor_at, with_branch, row - 3, cols)
            } else {
                line.cells
            }
        }),
    decreases n,
{
    if n == 0 {
        lemma_show_none(row, line);
    } else {
        let i = n - 1;
        let front = clean_rows_ops(list, ticked, cursor_at, with_branch, i as nat, cols);
        let one = clean_row_ops(list, ticked, cursor_at, with_branch, i, cols);
        lemma_show_boxes(list, ticked, cursor_at, with_branch, i as nat, cols, row, line);
        lemma_show_add(front, one, row, line);
        lemma_show_line(
            (3 + i) as u16,
            fitted(
                clean_row(
                    i == cursor_at,
                    ticked[i],
                    candidate_names(list)[i],
                    clean_name_width(list),
                    candidate_verdicts(list, with_branch)[i],
                    clean_verdict_width(list, with_branch),
                    list[i].note,
                ),
                cols,
            ),
            i == cursor_at,
            row,
            show(front, row, line),
        );
    }
}

proof fn lemma_show_clean_head(header: Seq<char>, row: int, line: Line)
    requires
        line.look == plain(),
    ensures
        show(clean_head_ops(header), row, line) == (Line {
            pen: 2,
            look: plain(),
            cells: if row == 0 {
                lit("Select worktrees to remove"@, plain())
            } else if row == 2 {
                lit(header, heading())
            } else {
                no_cells()
            },
        }),
{
    let question = "Select worktrees to remove"@;
    let a = seq![OpModel::Clear];
    let b = seq![OpModel::MoveTo(0, 0), OpModel::Print(question)];
    let c = seq![
        OpModel::MoveTo(0, 2),
        OpModel::Style(Attribute::Bold),
        OpModel::Style(Attribute::Underlined),
        OpModel::Print(header),
        OpModel::Style(Attribute::Reset),
    ];
    lemma_show_one(OpModel::Clear, row, line);
    lemma_show_add(a, b, row, line);
    lemma_show_text(0, question, row, show(a, row, line));
    lemma_show_add(a + b, c, row, line);
    lemma_show_labels(2, header, row, show(a + b, row, line));
    assert(a + b + c =~= clean_head_ops(header));
}

proof fn lemma_show_clean_foot(ticked: Seq<bool>, len: nat, size: Size, row: int, line: Line)
    requires
        line.look == plain(),
        size.rows >= 2,
    ensures
        show(clean_foot_ops(ticked, len, size), row, line).cells == if row == size.rows - 2 {
            lit(fitted(tally(ticked, len), size.cols as nat), dimmed())
        } else if row == size.rows - 1 {
            help_cells(fitting(cleaning_hints(), size.cols as nat))
        } else {
            line.cells
        },
{
    let told = fitted(tally(ticked, len), size.cols as nat);
    let hints = fitting(cleaning_hints(), size.cols as nat);
    let a = seq![OpModel::MoveTo(0, from_bottom(size.rows, 2))];
    let b = seq![
        OpModel::Style(Attribute::Dim),
        OpModel::Print(told),
        OpModel::Style(Attribute::Reset),
    ];
    let c = seq![OpModel::MoveTo(0, from_bottom(size.rows, 1))];
    let d = hints_ops(hints);
    lemma_show_one(OpModel::MoveTo(0, from_bottom(size.rows, 2)), row, line);
    let la = show(a, row, line);
    lemma_show_add(a, b, row, line);
    lemma_show_styled(Attribute::Dim, told, row, la);
    let lb = show(a + b, row, line);
    lemma_show_add(a + b, c, row, line);
    lemma_show_one(OpModel::MoveTo(0, from_bottom(size.rows, 1)), row, lb);
    let lc = show(a + b + c, row, line);
    lemma_show_add(a + b + c, d, row, line);
    lemma_show_help(hints, row, lc);
    lemma_no_cells(lit(told, dimmed()));
    lemma_no_cells(help_cells(hints));
    assert(clean_foot_ops(ticked, len, size) =~= a + b + c + d);
}

/// The count of what is selected, drawn across the whole screen.
pub open spec fn tally_on_screen(cells: Cells, cols: int, selected: int, total: int) -> bool {
    exists|a: Seq<char>, b: Seq<char>, shown: Seq<char>|
        reads_as(a, selected) && reads_as(b, total) && #[trigger] edge_to_edge(
            shown,
            a + " of "@ + b + " selected"@,
            cols,
        ) && cells == lit(shown, dimmed())
}

/// The clean screen asks its question on the first line and has its labels on
/// the third. Below them is a line for each candidate there is room for: the
/// cursor, the box, ticked or not, the name, the verdict and the note. At the
/// bottom are how many are selected, and the help. What is left stays empty.
pub proof fn law_the_clean_screen_on_screen(
    out: &mut Canvas,
    candidates: &Vec<Candidate>,
    ticked: &Vec<bool>,
    cursor_at: usize,
    with_branch: bool,
    size: Size,
    r: (),
    name_width: int,
    verdicts: Vec<String>,
    verdict_width: int,
    picked: Vec<usize>,
    hints: Vec<Hint>,
    help: Vec<Hint>,
    row: int,
)
    requires
        call_ensures(
            draw_clean,
            (out, candidates, ticked, cursor_at, with_branch, size),
            r,
        ),
        old(out)@.len() == 0,
        size.rows >= 5,
        is_widest(
            name_width,
            Seq::new(candidates@.len(), |i: int| candidates@[i].name@),
            "WORKTREE"@,
        ),
        verdicts@.len() == candidates@.len(),
        forall|i: int|
            0 <= i < candidates@.len() ==> call_ensures(
                State::verdict,
                (candidates@[i].state, with_branch),
                #[trigger] verdicts@[i],
            ),
        is_widest(
            verdict_width,
            Seq::new(verdicts@.len(), |i: int| verdicts@[i]@),
            "SAFE TO REMOVE"@,
        ),
        call_ensures(chosen, (ticked,), picked),
        call_ensures(clean_hints, (), hints),
        call_ensures(hints_that_fit, (hints, size.cols), help),
        0 <= row < size.rows,
    ensures
        ({
            let cells = on_row(final(out)@, row);
            let i = row - 3;
            let listed = 3 <= row <= size.rows - 3 && i < candidates@.len();
            &&& row == 0 ==> cells == lit("Select worktrees to remove"@, plain())
            &&& row == 1 ==> cells == no_cells()
            &&& row == 2 ==> labels_on_screen(
                cells,
                size.cols as int,
                name_width,
                verdict_width,
            )
            &&& listed ==> box_on_screen(
                cells,
                size.cols as int,
                i == cursor_at,
                ticked@[i],
                candidates@[i].name@,
                name_width,
                verdicts@[i]@,
                verdict_width,
                candidates@[i].note@,
            )
            &&& 3 <= row <= size.rows - 3 && !listed ==> cells == no_cells()
            &&& row == size.rows - 2 ==> tally_on_screen(
                cells,
                size.cols as int,
                picked@.len() as int,
                candidates@.len() as int,
            )
            &&& row == size.rows - 1 ==> cells == help_cells(hint_models(help@))
        }),
{
    let list = candidate_models(candidates@);
    let cols = size.cols as nat;
    let at = cursor_at as int;
    let start = blank_line();
    let n = clean_rows(list.len(), size.rows);
    assert(Seq::new(candidates@.len(), |i: int| candidates@[i].name@) =~= candidate_names(list));
    assert(Seq::new(verdicts@.len(), |i: int| verdicts@[i]@) =~= candidate_verdicts(
        list,
        with_branch,
    ));
    lemma_widest_is_the_width(name_width, candidate_names(list), "WORKTREE"@);
    lemma_widest_is_the_width(
        verdict_width,
        candidate_verdicts(list, with_branch),
        "SAFE TO REMOVE"@,
    );
    let header = fitted(clean_header(name_width as nat, verdict_width as nat), cols);
    let a = clean_head_ops(header);
    let b = clean_rows_ops(list, ticked@, at, with_branch, n, cols);
    let c = clean_foot_ops(ticked@, list.len(), size);
    lemma_show_clean_head(header, row, start);
    lemma_show_add(a, b, row, start);
    lemma_show_boxes(list, ticked@, at, with_branch, n, cols, row, show(a, row, start));
    lemma_show_add(a + b, c, row, start);
    lemma_show_clean_foot(ticked@, list.len(), size, row, show(a + b, row, start));
    let drawn = clean_ops(list, ticked@, at, with_branch, size);
    assert(drawn == a + b + c);
    assert(old(out)@ + drawn =~= drawn);
    lemma_labels(name_width as nat, verdict_width as nat, cols);
    let i = row - 3;
    if 0 <= i < candidates@.len() {
        assert(list[i] == candidates@[i]@);
        assert(candidate_names(list)[i] == candidates@[i].name@);
        assert(candidate_verdicts(list, with_branch)[i] == verdicts@[i]@);
        lemma_box_line(
            i == at,
            ticked@[i],
            candidates@[i].name@,
            name_width as nat,
            verdicts@[i]@,
            verdict_width as nat,
            candidates@[i].note@,
        );
        lemma_fitted(
            clean_row(
                i == at,
                ticked@[i],
                candidates@[i].name@,
                name_width as nat,
                verdicts@[i]@,
                verdict_width as nat,
                candidates@[i].note@,
            ),
            cols,
        );
    }
    assert(indices(picked@).len() == picked@.len());
    lemma_decimal_reads(picked@.len());
    lemma_decimal_reads(candidates@.len());
    lemma_fitted(tally(ticked@, list.len()), cols);
}

// --- what a terminal is sent --------------------------------------------------

/// An empty frame sends nothing.
pub proof fn law_a_new_canvas_is_empty(out: Canvas, r: String)
    requires
        call_ensures(Canvas::new, (), out),
        call_ensures(Canvas::render, (&out,), r),
    ensures
        out.ops@.len() == 0,
        r@.len() == 0,
{
    assert(out@.len() == out.ops@.len());
}

/// Clearing sends the sequence that clears, behind what is sent already.
pub proof fn law_clearing_is_sent(out: &mut Canvas, r: (), before: String, after: String)
    requires
        call_ensures(Canvas::clear, (out,), r),
        call_ensures(Canvas::render, (&*old(out),), before),
        call_ensures(Canvas::render, (&*final(out),), after),
    ensures
        after@ == before@ + "\u{1b}[2J"@,
{
    assert(final(out)@.drop_last() =~= old(out)@);
}

/// A position is sent row first, both numbers counted from one.
pub proof fn law_positions_are_sent(
    out: &mut Canvas,
    column: u16,
    row: u16,
    r: (),
    before: String,
    after: String,
)
    requires
        call_ensures(Canvas::move_to, (out, column, row), r),
        call_ensures(Canvas::render, (&*old(out),), before),
        call_ensures(Canvas::render, (&*final(out),), after),
    ensures
        exists|y: Seq<char>, x: Seq<char>|
            reads_as(y, row + 1) && reads_as(x, column + 1) && after@ == #[trigger] (before@
                + "\u{1b}["@ + y + ";"@ + x + "H"@),
{
    assert(final(out)@.drop_last() =~= old(out)@);
    let y = decimal(row as nat + 1);
    let x = decimal(column as nat + 1);
    lemma_decimal_reads(row as nat + 1);
    lemma_decimal_reads(column as nat + 1);
    assert(after@ =~= before@ + "\u{1b}["@ + y + ";"@ + x + "H"@);
}

/// An attribute is sent by its number.
pub proof fn law_attributes_are_sent(
    out: &mut Canvas,
    attribute: Attribute,
    r: (),
    before: String,
    after: String,
)
    requires
        call_ensures(Canvas::set, (out, attribute), r),
        call_ensures(Canvas::render, (&*old(out),), before),
        call_ensures(Canvas::render, (&*final(out),), after),
    ensures
        after@ == before@ + "\u{1b}["@ + (match attribute {
            Attribute::Bold => "1"@,
            Attribute::Dim => "2"@,
            Attribute::Underlined => "4"@,
            Attribute::Reverse => "7"@,
            Attribute::Reset => "0"@,
        }) + "m"@,
{
    assert(final(out)@.drop_last() =~= old(out)@);
}

/// A text is sent as it is.
pub proof fn law_texts_are_sent(
    out: &mut Canvas,
    text: &str,
    r: (),
    before: String,
    after: String,
)
    requires
        call_ensures(Canvas::print, (out, text), r),
        call_ensures(Canvas::render, (&*old(out),), before),
        call_ensures(Canvas::render, (&*final(out),), after),
    ensures
        after@ == before@ + text@,
{
    assert(final(out)@.drop_last() =~= old(out)@);
}

} // verus!
