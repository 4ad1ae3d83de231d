//! What a person sees on each line of each screen.

use vstd::prelude::*;

use crate::commands::list_laws::{a_row, lemma_a_row};
use crate::text::{cut, decimal, fitted, padded, spaces};
use crate::text_laws::{is_widest, lemma_decimal_reads, lemma_widest_is_the_width, reads_as};
use crate::tui::draw::{
    badge, badges, count_label, count_text, draw, draw_hints, draw_prompt, frame_ops, from_bottom,
    gap, header_ops, header_text, hint_ops, hints_ops, line_ops, list_height, matching_names,
    message_ops, name_width, prompt_ops, row_ops, row_text, rows_ops, rows_shown,
};
use crate::tui::hints::{fitting, hint_models, hints_for, hints_of, hints_that_fit, Hint, HintModel};
use crate::tui::picker::{indices, Picker, PickerModel};
use crate::tui::screen::{Attribute, Canvas, OpModel, Size};
use crate::tui::terminal::{
    blank_line, dimmed, heading, lemma_no_cells, lemma_show_add, lemma_show_none, lemma_show_push,
    lit, no_cells, on_row, plain, reversed, seen, show, Cells, Line, Look,
};

verus! {

// --- pieces -------------------------------------------------------------------

proof fn lemma_assoc(a: Cells, b: Cells, c: Cells)
    ensures
        a.then_cells(b).then_cells(c) == a.then_cells(b.then_cells(c)),
{
    assert(a.then_cells(b).then_cells(c) =~= a.then_cells(b.then_cells(c)));
}

/// A line after one thing is printed on it by a plain pen, and one after that.
pub proof fn lemma_show_one(op: OpModel, row: int, line: Line)
    ensures
        show(seq![op], row, line) == seen(op, row, line),
{
    let none = Seq::<OpModel>::empty();
    lemma_show_none(row, line);
    lemma_show_push(none, op, row, line);
}

/// A text between a change of look and the change back.
pub proof fn lemma_show_styled(attribute: Attribute, text: Seq<char>, row: int, line: Line)
    requires
        line.look == plain(),
        attribute == Attribute::Reverse || attribute == Attribute::Dim,
    ensures
        ({
            let look = if attribute == Attribute::Reverse {
                reversed()
            } else {
                dimmed()
            };
            show(
                seq![
                    OpModel::Style(attribute),
                    OpModel::Print(text),
                    OpModel::Style(Attribute::Reset),
                ],
                row,
                line,
            ) == (Line {
                cells: if line.pen == row {
                    line.cells.then_cells(lit(text, look))
                } else {
                    line.cells
                },
                ..line
            })
        }),
{
    let a = Seq::<OpModel>::empty();
    let b = a.push(OpModel::Style(attribute));
    let c = b.push(OpModel::Print(text));
    lemma_show_none(row, line);
    lemma_show_push(a, OpModel::Style(attribute), row, line);
    lemma_show_push(b, OpModel::Print(text), row, line);
    lemma_show_push(c, OpModel::Style(Attribute::Reset), row, line);
    let look = if attribute == Attribute::Reverse {
        reversed()
    } else {
        dimmed()
    };
    assert(show(b, row, line).look == look);
    let all = c.push(OpModel::Style(Attribute::Reset));
    let after = show(all, row, line);
    assert(after.look == plain());
    assert(after.pen == line.pen);
    assert(after.cells == if line.pen == row {
        line.cells.then_cells(lit(text, look))
    } else {
        line.cells
    });
    assert(all =~= seq![
        OpModel::Style(attribute),
        OpModel::Print(text),
        OpModel::Style(Attribute::Reset),
    ]);
}

/// A line drawn whole, highlighted or not.
pub proof fn lemma_show_line(at: u16, text: Seq<char>, highlighted: bool, row: int, line: Line)
    requires
        line.look == plain(),
    ensures
        show(line_ops(at, text, highlighted), row, line) == (Line {
            pen: at as int,
            look: plain(),
            cells: if at == row {
                lit(
                    text,
                    if highlighted {
                        reversed()
                    } else {
                        plain()
                    },
                )
            } else {
                line.cells
            },
        }),
{
    let go = seq![OpModel::MoveTo(0, at)];
    let there = show(go, row, line);
    lemma_show_one(OpModel::MoveTo(0, at), row, line);
    lemma_no_cells(lit(text, reversed()));
    lemma_no_cells(lit(text, plain()));
    if highlighted {
        let body = seq![
            OpModel::Style(Attribute::Reverse),
            OpModel::Print(text),
            OpModel::Style(Attribute::Reset),
        ];
        lemma_show_add(go, body, row, line);
        lemma_show_styled(Attribute::Reverse, text, row, there);
    } else {
        let body = seq![OpModel::Print(text)];
        lemma_show_add(go, body, row, line);
        lemma_show_one(OpModel::Print(text), row, there);
    }
}

// --- the help line ------------------------------------------------------------

/// The keys of an entry, each in a badge of its own.
pub open spec fn badge_cells(keys: Seq<Seq<char>>) -> Cells
    decreases keys.len(),
{
    if keys.len() == 0 {
        no_cells()
    } else if keys.len() == 1 {
        lit(" "@ + keys[0] + " "@, reversed())
    } else {
        badge_cells(keys.drop_last()).then_cells(lit(" "@, plain())).then_cells(
            lit(" "@ + keys.last() + " "@, reversed()),
        )
    }
}

/// An entry: its keys, and what they do.
pub open spec fn entry_cells(hint: HintModel) -> Cells {
    badge_cells(hint.keys).then_cells(lit(" "@ + hint.label, plain()))
}

/// Entries beside each other, with room between them.
pub open spec fn help_cells(hints: Seq<HintModel>) -> Cells
    decreases hints.len(),
{
    if hints.len() == 0 {
        no_cells()
    } else if hints.len() == 1 {
        entry_cells(hints[0])
    } else {
        help_cells(hints.drop_last()).then_cells(lit("  "@, plain())).then_cells(
            entry_cells(hints.last()),
        )
    }
}

/// The line with these cells added, where the pen is on it.
pub open spec fn written(line: Line, row: int, cells: Cells) -> Line {
    Line {
        cells: if line.pen == row {
            line.cells.then_cells(cells)
        } else {
            line.cells
        },
        ..line
    }
}

proof fn lemma_show_badges(keys: Seq<Seq<char>>, row: int, line: Line)
    requires
        line.look == plain(),
    ensures
        show(badges(keys), row, line) == written(line, row, badge_cells(keys)),
    decreases keys.len(),
{
    lemma_no_cells(line.cells);
    if keys.len() == 0 {
        lemma_show_none(row, line);
    } else if keys.len() == 1 {
        lemma_show_styled(Attribute::Reverse, " "@ + keys[0] + " "@, row, line);
    } else {
        let front = keys.drop_last();
        let space = seq![OpModel::Print(" "@)];
        let key = " "@ + keys.last() + " "@;
        lemma_show_badges(front, row, line);
        let one = show(badges(front), row, line);
        lemma_show_add(badges(front), space, row, line);
        lemma_show_one(OpModel::Print(" "@), row, one);
        let two = show(badges(front) + space, row, line);
        lemma_show_add(badges(front) + space, badge(keys.last()), row, line);
        lemma_show_styled(Attribute::Reverse, key, row, two);
        lemma_assoc(line.cells, badge_cells(front), lit(" "@, plain()));
        lemma_assoc(
            line.cells,
            badge_cells(front).then_cells(lit(" "@, plain())),
            lit(key, reversed()),
        );
    }
}

proof fn lemma_show_entry(hint: HintModel, row: int, line: Line)
    requires
        line.look == plain(),
    ensures
        show(hint_ops(hint), row, line) == written(line, row, entry_cells(hint)),
{
    let label = " "@ + hint.label;
    lemma_show_badges(hint.keys, row, line);
    let one = show(badges(hint.keys), row, line);
    lemma_show_add(badges(hint.keys), seq![OpModel::Print(label)], row, line);
    lemma_show_one(OpModel::Print(label), row, one);
    lemma_assoc(line.cells, badge_cells(hint.keys), lit(label, plain()));
}

pub proof fn lemma_show_help(hints: Seq<HintModel>, row: int, line: Line)
    requires
        line.look == plain(),
    ensures
        show(hints_ops(hints), row, line) == written(line, row, help_cells(hints)),
    decreases hints.len(),
{
    lemma_no_cells(line.cells);
    if hints.len() == 0 {
        lemma_show_none(row, line);
    } else if hints.len() == 1 {
        lemma_show_entry(hints[0], row, line);
    } else {
        let front = hints.drop_last();
        let between = seq![OpModel::Print("  "@)];
        lemma_show_help(front, row, line);
        let one = show(hints_ops(front), row, line);
        lemma_show_add(hints_ops(front), between, row, line);
        lemma_show_one(OpModel::Print("  "@), row, one);
        let two = show(hints_ops(front) + between, row, line);
        lemma_show_add(hints_ops(front) + between, hint_ops(hints.last()), row, line);
        lemma_show_entry(hints.last(), row, two);
        lemma_assoc(line.cells, help_cells(front), lit("  "@, plain()));
        lemma_assoc(
            line.cells,
            help_cells(front).then_cells(lit("  "@, plain())),
            entry_cells(hints.last()),
        );
    }
}

/// Each key of the help line sits in a badge of its own, its label behind it,
/// and entries stand two columns apart.
pub proof fn law_the_help_line_on_screen(
    out: &mut Canvas,
    hints: &Vec<Hint>,
    r: (),
    row: int,
    before: Line,
)
    requires
        call_ensures(draw_hints, (out, hints), r),
        before == show(old(out)@, row, blank_line()),
        before.look == plain(),
        before.pen == row,
    ensures
        on_row(final(out)@, row) == before.cells.then_cells(help_cells(hint_models(hints@))),
{
    lemma_show_add(old(out)@, hints_ops(hint_models(hints@)), row, blank_line());
    lemma_show_help(hint_models(hints@), row, before);
}

// --- the prompt ---------------------------------------------------------------

/// How much of the list is looked at.
pub open spec fn is_count(text: Seq<char>, typing: bool, matched: int, total: int) -> bool {
    if typing {
        exists|a: Seq<char>, b: Seq<char>|
            reads_as(a, matched) && reads_as(b, total) && text == #[trigger] (a + " of "@ + b)
    } else if total == 1 {
        text == "1 worktree"@
    } else {
        exists|b: Seq<char>| reads_as(b, total) && text == #[trigger] (b + " worktrees"@)
    }
}

proof fn lemma_count(typing: bool, matched: nat, total: nat)
    ensures
        is_count(count_text(typing, matched, total), typing, matched as int, total as int),
{
    lemma_decimal_reads(matched);
    lemma_decimal_reads(total);
    if typing {
        assert(count_text(typing, matched, total) == decimal(matched) + " of "@ + decimal(total));
    } else if total != 1 {
        assert(count_text(typing, matched, total) == decimal(total) + " worktrees"@);
    }
}

/// The count says how many rows are listed while something is typed, and how
/// many there are while nothing is.
pub proof fn law_what_the_count_says(filter: &str, matched: usize, total: usize, r: String)
    requires
        call_ensures(count_label, (filter, matched, total), r),
    ensures
        is_count(r@, filter@.len() > 0, matched as int, total as int),
{
    lemma_count(filter@.len() > 0, matched as nat, total as nat);
}

/// The prompt: what is typed behind an arrow, a block for the cursor, what
/// typing would do while nothing is typed, and at the right edge the count,
/// where there is room for it.
pub open spec fn prompt_cells(filter: Seq<char>, count: Seq<char>, cols: int) -> Cells {
    let hint = if filter.len() == 0 {
        "type to filter"@
    } else {
        Seq::empty()
    };
    let room = cols - (2 + filter.len() + 1 + hint.len() + count.len());
    let typed = lit("> "@, plain()).then_cells(lit(filter, plain())).then_cells(
        lit(" "@, reversed()),
    ).then_cells(lit(hint, dimmed()));
    if room > 0 {
        typed.then_cells(lit(spaces(room as nat), plain())).then_cells(lit(count, dimmed()))
    } else {
        typed
    }
}

proof fn lemma_show_prompt(picker: PickerModel, matched: nat, cols: int, row: int, line: Line)
    requires
        line.look == plain(),
        line.pen == row ==> line.cells == no_cells(),
    ensures
        show(prompt_ops(picker, matched, cols), row, line) == written(
            line,
            row,
            prompt_cells(
                picker.filter,
                count_text(picker.filter.len() > 0, matched, picker.items.len()),
                cols,
            ),
        ),
{
    reveal_strlit("");
    let filter = picker.filter;
    let shown = count_text(filter.len() > 0, matched, picker.items.len());
    let empty = Seq::<OpModel>::empty();
    let arrow = empty.push(OpModel::Print("> "@));
    let typed = arrow.push(OpModel::Print(filter));
    lemma_show_none(row, line);
    lemma_show_push(empty, OpModel::Print("> "@), row, line);
    lemma_show_push(arrow, OpModel::Print(filter), row, line);
    let one = show(typed, row, line);
    let block = seq![
        OpModel::Style(Attribute::Reverse),
        OpModel::Print(" "@),
        OpModel::Style(Attribute::Reset),
    ];
    lemma_show_add(typed, block, row, line);
    lemma_show_styled(Attribute::Reverse, " "@, row, one);
    let all = typed + block;
    assert(all =~= seq![
        OpModel::Print("> "@),
        OpModel::Print(filter),
        OpModel::Style(Attribute::Reverse),
        OpModel::Print(" "@),
        OpModel::Style(Attribute::Reset),
    ]);
    let two = show(all, row, line);
    lemma_no_cells(lit("> "@, plain()));
    let hint = if filter.len() == 0 {
        seq![
            OpModel::Style(Attribute::Dim),
            OpModel::Print("type to filter"@),
            OpModel::Style(Attribute::Reset),
        ]
    } else {
        Seq::empty()
    };
    lemma_show_add(all, hint, row, line);
    let three = show(all + hint, row, line);
    if filter.len() == 0 {
        lemma_show_styled(Attribute::Dim, "type to filter"@, row, two);
    } else {
        lemma_show_none(row, two);
        assert(lit(Seq::empty(), dimmed()) =~= no_cells());
        lemma_no_cells(two.cells);
        assert(all + hint =~= all);
    }
    let room = gap(filter, shown, cols);
    let counted = if room > 0 {
        seq![
            OpModel::Print(spaces(room as nat)),
            OpModel::Style(Attribute::Dim),
            OpModel::Print(shown),
            OpModel::Style(Attribute::Reset),
        ]
    } else {
        Seq::empty()
    };
    lemma_show_add(all + hint, counted, row, line);
    if room > 0 {
        let pad = seq![OpModel::Print(spaces(room as nat))];
        let rest = seq![
            OpModel::Style(Attribute::Dim),
            OpModel::Print(shown),
            OpModel::Style(Attribute::Reset),
        ];
        assert(pad + rest =~= counted);
        lemma_show_add(pad, rest, row, three);
        lemma_show_one(OpModel::Print(spaces(room as nat)), row, three);
        lemma_show_styled(Attribute::Dim, shown, row, show(pad, row, three));
    } else {
        lemma_show_none(row, three);
    }
    let want = prompt_cells(filter, shown, cols);
    lemma_no_cells(want);
    assert(prompt_ops(picker, matched, cols) == all + hint + counted);
}

/// The prompt on a line of its own.
pub proof fn law_the_prompt_on_screen(
    out: &mut Canvas,
    picker: &Picker,
    matched: usize,
    cols: usize,
    r: (),
    row: int,
    before: Line,
)
    requires
        call_ensures(draw_prompt, (out, picker, matched, cols), r),
        before == show(old(out)@, row, blank_line()),
        before.look == plain(),
        before.pen == row,
        before.cells == no_cells(),
    ensures
        exists|count: Seq<char>|
            #![trigger prompt_cells(picker.filter@, count, cols as int)]
            is_count(count, picker.filter@.len() > 0, matched as int, picker.items@.len() as int)
                && on_row(final(out)@, row) == prompt_cells(picker.filter@, count, cols as int),
{
    lemma_show_add(
        old(out)@,
        prompt_ops(picker@, matched as nat, cols as int),
        row,
        blank_line(),
    );
    lemma_show_prompt(picker@, matched as nat, cols as int, row, before);
    let total = picker.items@.len();
    let count = count_text(picker.filter@.len() > 0, matched as nat, total);
    lemma_count(picker.filter@.len() > 0, matched as nat, total);
    lemma_no_cells(prompt_cells(picker.filter@, count, cols as int));
    assert(picker@.items.len() == total);
}

// --- the picker ---------------------------------------------------------------

/// A line cut or padded to the width of the screen.
pub open spec fn edge_to_edge(shown: Seq<char>, line: Seq<char>, cols: int) -> bool {
    &&& shown.len() == cols
    &&& forall|i: int|
        0 <= i < cols ==> #[trigger] shown[i] == if i < line.len() {
            line[i]
        } else {
            ' '
        }
}

pub proof fn lemma_fitted(line: Seq<char>, cols: nat)
    ensures
        edge_to_edge(fitted(line, cols), line, cols as int),
{
}

/// One row of the list, drawn across the whole screen.
pub open spec fn row_on_screen(
    cells: Cells,
    cols: int,
    look: Look,
    marker: Seq<char>,
    name: Seq<char>,
    width: int,
    head: Seq<char>,
    status: Seq<char>,
) -> bool {
    exists|line: Seq<char>, shown: Seq<char>|
        a_row(line, marker, name, width, head, status, Seq::empty()) && #[trigger] edge_to_edge(
            shown,
            line,
            cols,
        ) && cells == lit(shown, look)
}

proof fn lemma_row_on_screen(
    cols: nat,
    look: Look,
    marker: Seq<char>,
    name: Seq<char>,
    width: nat,
    head: Seq<char>,
    status: Seq<char>,
)
    requires
        marker.len() == 2,
        name.len() <= width,
    ensures
        row_on_screen(
            lit(
                fitted(marker + padded(name, width) + "  "@ + head + "  "@ + status, cols),
                look,
            ),
            cols as int,
            look,
            marker,
            name,
            width as int,
            head,
            status,
        ),
{
    let line = marker + padded(name, width) + "  "@ + head + "  "@ + status;
    assert(line =~= line + Seq::<char>::empty());
    lemma_a_row(line, marker, name, width, head, status, Seq::empty());
    lemma_fitted(line, cols);
}

/// Column labels on a line of their own.
pub proof fn lemma_show_labels(at: u16, labels: Seq<char>, row: int, line: Line)
    requires
        line.look == plain(),
    ensures
        show(
            seq![
                OpModel::MoveTo(0, at),
                OpModel::Style(Attribute::Bold),
                OpModel::Style(Attribute::Underlined),
                OpModel::Print(labels),
                OpModel::Style(Attribute::Reset),
            ],
            row,
            line,
        ) == (Line {
            pen: at as int,
            look: plain(),
            cells: if row == at {
                lit(labels, heading())
            } else {
                line.cells
            },
        }),
{
    let a = Seq::<OpModel>::empty();
    let b = a.push(OpModel::MoveTo(0, at));
    let c = b.push(OpModel::Style(Attribute::Bold));
    let d = c.push(OpModel::Style(Attribute::Underlined));
    let e = d.push(OpModel::Print(labels));
    let f = e.push(OpModel::Style(Attribute::Reset));
    lemma_show_none(row, line);
    lemma_show_push(a, OpModel::MoveTo(0, at), row, line);
    lemma_show_push(b, OpModel::Style(Attribute::Bold), row, line);
    lemma_show_push(c, OpModel::Style(Attribute::Underlined), row, line);
    assert(show(d, row, line).look == heading());
    lemma_show_push(d, OpModel::Print(labels), row, line);
    lemma_show_push(e, OpModel::Style(Attribute::Reset), row, line);
    lemma_no_cells(lit(labels, heading()));
    let after = show(f, row, line);
    assert(after.look == plain());
    assert(after.pen == at);
    assert(after.cells == if row == at {
        lit(labels, heading())
    } else {
        line.cells
    });
    assert(f =~= seq![
        OpModel::MoveTo(0, at),
        OpModel::Style(Attribute::Bold),
        OpModel::Style(Attribute::Underlined),
        OpModel::Print(labels),
        OpModel::Style(Attribute::Reset),
    ]);
}

proof fn lemma_show_header(header: Seq<char>, row: int, line: Line)
    requires
        line.look == plain(),
    ensures
        show(header_ops(header), row, line) == (Line {
            pen: 0,
            look: plain(),
            cells: if row == 0 {
                lit(header, heading())
            } else {
                no_cells()
            },
        }),
{
    let clear = seq![OpModel::Clear];
    let labels = seq![
        OpModel::MoveTo(0, 0),
        OpModel::Style(Attribute::Bold),
        OpModel::Style(Attribute::Underlined),
        OpModel::Print(header),
        OpModel::Style(Attribute::Reset),
    ];
    lemma_show_one(OpModel::Clear, row, line);
    lemma_show_add(clear, labels, row, line);
    lemma_show_labels(0, header, row, show(clear, row, line));
    assert(clear + labels =~= header_ops(header));
}

/// What is on the line of the list that is `at` below its first.
spec fn list_cells(picker: PickerModel, at: int, cols: nat) -> Cells {
    lit(
        fitted(
            row_text(picker.items[picker.matching()[picker.offset + at]], name_width(picker)),
            cols,
        ),
        if picker.offset + at == picker.cursor {
            reversed()
        } else {
            plain()
        },
    )
}

proof fn lemma_show_rows(picker: PickerModel, n: nat, cols: nat, row: int, line: Line)
    requires
        line.look == plain(),
        n < u16::MAX,
    ensures
        show(rows_ops(picker, n, cols), row, line) == (Line {
            pen: if n == 0 {
                line.pen
            } else {
                n as int
            },
            look: plain(),
            cells: if 1 <= row <= n {
                list_cells(picker, row - 1, cols)
            } else {
                line.cells
            },
        }),
    decreases n,
{
    if n == 0 {
        lemma_show_none(row, line);
    } else {
        let front = rows_ops(picker, (n - 1) as nat, cols);
        let one = row_ops(picker, n - 1, cols);
        lemma_show_rows(picker, (n - 1) as nat, cols, row, line);
        lemma_show_add(front, one, row, line);
        let item = picker.items[picker.matching()[picker.offset + (n - 1)]];
        lemma_show_line(
            n as u16,
            fitted(row_text(item, name_width(picker)), cols),
            picker.offset + (n - 1) == picker.cursor,
            row,
            show(front, row, line),
        );
    }
}

proof fn lemma_show_message(message: Option<Seq<char>>, size: Size, row: int, line: Line)
    requires
        line.look == plain(),
    ensures
        ({
            let after = show(message_ops(message, size), row, line);
            &&& after.look == plain()
            &&& after.cells == match message {
                Some(text) => if row == from_bottom(size.rows, 3) {
                    lit(cut(text, size.cols as nat), plain())
                } else {
                    line.cells
                },
                None => line.cells,
            }
        }),
{
    match message {
        Some(text) => {
            let at = from_bottom(size.rows, 3);
            let said = cut(text, size.cols as nat);
            let empty = Seq::<OpModel>::empty();
            let go = empty.push(OpModel::MoveTo(0, at));
            lemma_show_none(row, line);
            lemma_show_push(empty, OpModel::MoveTo(0, at), row, line);
            lemma_show_push(go, OpModel::Print(said), row, line);
            lemma_no_cells(lit(said, plain()));
            assert(go.push(OpModel::Print(said)) =~= message_ops(message, size));
        },
        None => {
            lemma_show_none(row, line);
        },
    }
}

/// A whole frame, line by line.
proof fn lemma_show_frame(picker: PickerModel, message: Option<Seq<char>>, size: Size, row: int)
    requires
        size.rows >= if message is Some {
            4int
        } else {
            3int
        },
    ensures
        ({
            let cols = size.cols as nat;
            let n = rows_shown(picker, list_height(size.rows, message is Some));
            on_row(frame_ops(picker, message, size), row) == if row == 0 {
                lit(fitted(header_text(name_width(picker)), cols), heading())
            } else if 1 <= row <= n {
                list_cells(picker, row - 1, cols)
            } else if message is Some && row == size.rows - 3 {
                lit(cut(message->0, cols), plain())
            } else if row == size.rows - 2 {
                prompt_cells(
                    picker.filter,
                    count_text(
                        picker.filter.len() > 0,
                        picker.matching().len(),
                        picker.items.len(),
                    ),
                    size.cols as int,
                )
            } else if row == size.rows - 1 {
                help_cells(fitting(hints_of(picker), cols))
            } else {
                no_cells()
            }
        }),
{
    let cols = size.cols as nat;
    let height = list_height(size.rows, message is Some);
    let n = rows_shown(picker, height);
    let header = fitted(header_text(name_width(picker)), cols);
    let matched = picker.matching().len();
    let hints = fitting(hints_of(picker), cols);
    let count = count_text(picker.filter.len() > 0, matched, picker.items.len());
    let a = header_ops(header);
    let b = rows_ops(picker, n, cols);
    let c = message_ops(message, size);
    let d = seq![OpModel::MoveTo(0, from_bottom(size.rows, 2))];
    let e = prompt_ops(picker, matched, size.cols as int);
    let f = seq![OpModel::MoveTo(0, from_bottom(size.rows, 1))];
    let g = hints_ops(hints);
    let start = blank_line();
    lemma_show_header(header, row, start);
    let la = show(a, row, start);
    lemma_show_add(a, b, row, start);
    lemma_show_rows(picker, n, cols, row, la);
    let lb = show(a + b, row, start);
    lemma_show_add(a + b, c, row, start);
    lemma_show_message(message, size, row, lb);
    let lc = show(a + b + c, row, start);
    lemma_show_add(a + b + c, d, row, start);
    lemma_show_one(OpModel::MoveTo(0, from_bottom(size.rows, 2)), row, lc);
    let ld = show(a + b + c + d, row, start);
    lemma_show_add(a + b + c + d, e, row, start);
    lemma_show_prompt(picker, matched, size.cols as int, row, ld);
    let le = show(a + b + c + d + e, row, start);
    lemma_show_add(a + b + c + d + e, f, row, start);
    lemma_show_one(OpModel::MoveTo(0, from_bottom(size.rows, 1)), row, le);
    let lf = show(a + b + c + d + e + f, row, start);
    lemma_show_add(a + b + c + d + e + f, g, row, start);
    lemma_show_help(hints, row, lf);
    lemma_no_cells(prompt_cells(picker.filter, count, size.cols as int));
    lemma_no_cells(help_cells(hints));
    assert(frame_ops(picker, message, size) == a + b + c + d + e + f + g);
}

/// The names in the rows that are listed.
pub open spec fn listed_names(picker: &Picker, matches: Seq<usize>) -> Seq<Seq<char>> {
    Seq::new(matches.len(), |k: int| picker.items@[matches[k] as int].name@)
}

/// Drawing scrolls the list so that the cursor is on the screen, and changes
/// nothing else about it. The labels are on the first line. Below it is the list
/// from the row it is scrolled to, a row on each line, the one under the cursor
/// in reverse video: `*` where you are, then the name, the commit, and what is
/// known of the worktree or three dots. At the bottom are the message, if there
/// is one, the prompt, and the help. What is left stays empty.
pub proof fn law_the_picker_on_screen(
    out: &mut Canvas,
    picker: &mut Picker,
    message: Option<&str>,
    size: Size,
    r: (),
    matches: Vec<usize>,
    width: int,
    hints: Vec<Hint>,
    help: Vec<Hint>,
    row: int,
)
    requires
        call_ensures(draw, (out, picker, message, size), r),
        old(out)@.len() == 0,
        size.rows >= if message is Some {
            4int
        } else {
            3int
        },
        call_ensures(Picker::matches, (final(picker),), matches),
        is_widest(width, listed_names(final(picker), matches@), "WORKTREE"@),
        call_ensures(hints_for, (final(picker),), hints),
        call_ensures(hints_that_fit, (hints, size.cols), help),
        0 <= row < size.rows,
    ensures
        ({
            let height = size.rows - if message is Some {
                4int
            } else {
                3int
            };
            let was = *old(picker);
            let now = *final(picker);
            let cells = on_row(final(out)@, row);
            let at = now.offset + row - 1;
            let listed = 1 <= row <= height && at < matches@.len();
            let item = now.items@[matches@[at] as int];
            &&& now@.items == was@.items
            &&& now.filter@ == was.filter@
            &&& now.cursor == was.cursor
            &&& now.erasing == was.erasing
            &&& now.offset == if height == 0 {
                was.offset as int
            } else if was.cursor < was.offset {
                was.cursor as int
            } else if was.cursor >= was.offset + height {
                was.cursor + 1 - height
            } else {
                was.offset as int
            }
            &&& row == 0 ==> row_on_screen(
                cells,
                size.cols as int,
                heading(),
                "  "@,
                "WORKTREE"@,
                width,
                "HEAD   "@,
                "STATUS"@,
            )
            &&& listed ==> row_on_screen(
                cells,
                size.cols as int,
                if at == now.cursor {
                    reversed()
                } else {
                    plain()
                },
                if item.is_current {
                    "* "@
                } else {
                    "  "@
                },
                item.name@,
                width,
                item.head@,
                match item.note {
                    Some(note) => note@,
                    None => "..."@,
                },
            )
            &&& 1 <= row <= height && !listed ==> cells == no_cells()
            &&& message is Some && row == size.rows - 3 ==> cells == lit(
                if message->0@.len() <= size.cols {
                    message->0@
                } else {
                    message->0@.take(size.cols as int)
                },
                plain(),
            )
            &&& row == size.rows - 2 ==> exists|count: Seq<char>|
                #![trigger prompt_cells(now.filter@, count, size.cols as int)]
                is_count(
                    count,
                    now.filter@.len() > 0,
                    matches@.len() as int,
                    now.items@.len() as int,
                ) && cells == prompt_cells(now.filter@, count, size.cols as int)
            &&& row == size.rows - 1 ==> cells == help_cells(hint_models(help@))
        }),
{
    let now = *final(picker);
    let said = match message {
        Some(text) => Some(text@),
        None => None,
    };
    let cols = size.cols as nat;
    let names = listed_names(&now, matches@);
    assert(indices(matches@).len() == matches@.len());
    assert(matching_names(now@) =~= names) by {
        assert forall|k: int| 0 <= k < names.len() implies matching_names(now@)[k] == names[k] by {
            assert(indices(matches@)[k] == matches@[k]);
            assert(now@.items[matches@[k] as int] == now.items@[matches@[k] as int]@);
        }
    }
    lemma_widest_is_the_width(width, names, "WORKTREE"@);
    lemma_show_frame(now@, said, size, row);
    assert(old(out)@ + frame_ops(now@, said, size) =~= frame_ops(now@, said, size));
    reveal_strlit("* ");
    reveal_strlit("  ");
    if row == 0 {
        lemma_row_on_screen(
            cols,
            heading(),
            "  "@,
            "WORKTREE"@,
            width as nat,
            "HEAD   "@,
            "STATUS"@,
        );
    }
    let at = now.offset + row - 1;
    if row >= 1 && at < matches@.len() {
        let item = now.items@[matches@[at] as int];
        assert(indices(matches@)[at] == matches@[at]);
        assert(now@.items[matches@[at] as int] == item@);
        assert(names[at] == item.name@);
        lemma_row_on_screen(
            cols,
            if at == now.cursor {
                reversed()
            } else {
                plain()
            },
            if item.is_current {
                "* "@
            } else {
                "  "@
            },
            item.name@,
            width as nat,
            item.head@,
            match item.note {
                Some(note) => note@,
                None => "..."@,
            },
        );
    }
    let total = now.items@.len();
    assert(now@.items.len() == total);
    lemma_count(now.filter@.len() > 0, matches@.len(), total);
    if message is Some {
        assert(message->0@.take(message->0@.len() as int) =~= message->0@);
    }
}

} // verus!
