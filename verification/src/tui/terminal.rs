//! What a person sees of a frame: a terminal, one line of it at a time.

use vstd::prelude::*;

use crate::tui::screen::{Attribute, OpModel};

verus! {

/// How a character looks.
pub struct Look {
    pub bold: bool,
    pub dim: bool,
    pub underlined: bool,
    pub reverse: bool,
}

/// Nothing special.
pub open spec fn plain() -> Look {
    Look { bold: false, dim: false, underlined: false, reverse: false }
}

/// In reverse video.
pub open spec fn reversed() -> Look {
    Look { reverse: true, ..plain() }
}

/// Faded.
pub open spec fn dimmed() -> Look {
    Look { dim: true, ..plain() }
}

/// The look of column labels.
pub open spec fn heading() -> Look {
    Look { bold: true, underlined: true, ..plain() }
}

/// Characters on the screen, and how each of them looks.
#[verifier::ext_equal]
pub struct Cells {
    pub text: Seq<char>,
    pub looks: Seq<Look>,
}

impl Cells {
    /// These, and others behind them.
    pub open spec fn then_cells(self, more: Cells) -> Cells {
        Cells { text: self.text + more.text, looks: self.looks + more.looks }
    }
}

/// Nothing at all.
pub open spec fn no_cells() -> Cells {
    Cells { text: Seq::empty(), looks: Seq::empty() }
}

/// A text that looks the same all over.
pub open spec fn lit(text: Seq<char>, look: Look) -> Cells {
    Cells { text, looks: Seq::new(text.len(), |i: int| look) }
}

/// One line of the screen, the line the pen is on, and how it writes.
#[verifier::ext_equal]
pub struct Line {
    pub pen: int,
    pub look: Look,
    pub cells: Cells,
}

/// A line nothing has been written on, with the pen nowhere.
pub open spec fn blank_line() -> Line {
    Line { pen: -1, look: plain(), cells: no_cells() }
}

/// What one thing to draw does to the line at `row`. Lines are drawn from their
/// first column.
pub open spec fn seen(op: OpModel, row: int, line: Line) -> Line {
    match op {
        OpModel::Clear => Line { cells: no_cells(), ..line },
        OpModel::MoveTo(column, to) => Line {
            pen: if column == 0 {
                to as int
            } else {
                -1
            },
            cells: if to == row {
                no_cells()
            } else {
                line.cells
            },
            ..line
        },
        OpModel::Style(attribute) => Line {
            look: match attribute {
                Attribute::Bold => Look { bold: true, ..line.look },
                Attribute::Dim => Look { dim: true, ..line.look },
                Attribute::Underlined => Look { underlined: true, ..line.look },
                Attribute::Reverse => Look { reverse: true, ..line.look },
                Attribute::Reset => plain(),
            },
            ..line
        },
        OpModel::Print(text) => Line {
            cells: if line.pen == row {
                line.cells.then_cells(lit(text, line.look))
            } else {
                line.cells
            },
            ..line
        },
    }
}

/// What a frame does to the line at `row`.
pub open spec fn show(ops: Seq<OpModel>, row: int, line: Line) -> Line
    decreases ops.len(),
{
    if ops.len() == 0 {
        line
    } else {
        seen(ops.last(), row, show(ops.drop_last(), row, line))
    }
}

/// What is on the line at `row` of a screen once a frame was drawn on it.
pub open spec fn on_row(ops: Seq<OpModel>, row: int) -> Cells {
    show(ops, row, blank_line()).cells
}

pub proof fn lemma_show_none(row: int, line: Line)
    ensures
        show(Seq::empty(), row, line) == line,
{
}

pub proof fn lemma_show_push(ops: Seq<OpModel>, op: OpModel, row: int, line: Line)
    ensures
        show(ops.push(op), row, line) == seen(op, row, show(ops, row, line)),
{
    assert(ops.push(op).drop_last() =~= ops);
}

/// What is drawn later is seen later.
pub proof fn lemma_show_add(a: Seq<OpModel>, b: Seq<OpModel>, row: int, line: Line)
    ensures
        show(a + b, row, line) == show(b, row, show(a, row, line)),
    decreases b.len(),
{
    if b.len() == 0 {
        assert(a + b =~= a);
    } else {
        lemma_show_add(a, b.drop_last(), row, line);
        assert((a + b).drop_last() =~= a + b.drop_last());
        assert((a + b).last() == b.last());
    }
}

/// Nothing before a text, and nothing behind it, makes no difference.
pub proof fn lemma_no_cells(cells: Cells)
    ensures
        no_cells().then_cells(cells) == cells,
        cells.then_cells(no_cells()) == cells,
{
    assert(no_cells().then_cells(cells) =~= cells);
    assert(cells.then_cells(no_cells()) =~= cells);
}

} // verus!
