//! The frames of the picker: the list, the prompt and the help line.

use vstd::prelude::*;
use vstd::string::*;

use crate::text::{
    blanks, column_width, count, cut, decimal, fit, fitted, number, pad, padded, readings, spaces,
    truncate, widest,
};
use crate::tui::hints::{
    fitting, hint_models, hints_for, hints_of, hints_that_fit, law_help_lines_fit_eighty_columns,
    Hint, HintModel,
};
use crate::tui::picker::{indices, Item, ItemModel, Picker, PickerModel};
use crate::tui::screen::{drawable, Attribute, Canvas, OpModel, Size};

verus! {

/// What the prompt says while nothing is typed.
pub const PLACEHOLDER: &'static str = "type to filter";

/// Stands in for a status that has not been worked out yet.
///
/// An empty column is an answer of its own — nothing about this worktree is
/// worth saying — so the wait needs a mark, or a row still being measured and
/// a row with nothing to report look exactly alike and neither can be read.
pub const PENDING: &'static str = "...";

/// Column labels. `HEAD` keeps git's own name for the short commit id.
pub const NAME_HEADER: &'static str = "WORKTREE";

pub const HEAD_HEADER: &'static str = "HEAD   ";

pub const STATUS_HEADER: &'static str = "STATUS";

/// A key in its badge.
pub open spec fn badge(key: Seq<char>) -> Seq<OpModel> {
    seq![
        OpModel::Style(Attribute::Reverse),
        OpModel::Print(" "@ + key + " "@),
        OpModel::Style(Attribute::Reset),
    ]
}

/// The badges of an entry, a space between neighbours.
pub open spec fn badges(keys: Seq<Seq<char>>) -> Seq<OpModel>
    decreases keys.len(),
{
    if keys.len() == 0 {
        Seq::empty()
    } else if keys.len() == 1 {
        badge(keys[0])
    } else {
        badges(keys.drop_last()) + seq![OpModel::Print(" "@)] + badge(keys.last())
    }
}

/// One entry of the help line.
pub open spec fn hint_ops(hint: HintModel) -> Seq<OpModel> {
    badges(hint.keys) + seq![OpModel::Print(" "@ + hint.label)]
}

/// The help line, two spaces between neighbours.
pub open spec fn hints_ops(hints: Seq<HintModel>) -> Seq<OpModel>
    decreases hints.len(),
{
    if hints.len() == 0 {
        Seq::empty()
    } else if hints.len() == 1 {
        hint_ops(hints[0])
    } else {
        hints_ops(hints.drop_last()) + seq![OpModel::Print("  "@)] + hint_ops(hints.last())
    }
}

fn draw_badges(out: &mut Canvas, keys: &Vec<&'static str>)
    ensures
        final(out)@ == old(out)@ + badges(crate::tui::hints::key_readings(keys@)),
{
    let ghost start = out@;
    let ghost all = crate::tui::hints::key_readings(keys@);
    assert(out@ =~= start + badges(all.take(0)));
    for k in 0..keys.len()
        invariant
            all == crate::tui::hints::key_readings(keys@),
            out@ == start + badges(all.take(k as int)),
    {
        let ghost before = badges(all.take(k as int));
        if k > 0 {
            out.print(" ");
        }
        out.set(Attribute::Reverse);
        out.print(" ".to_string().concat(keys[k]).concat(" ").as_str());
        out.set(Attribute::Reset);
        proof {
            let now = all.take(k + 1);
            assert(now.drop_last() =~= all.take(k as int));
            assert(now.last() == keys@[k as int]@);
            assert(out@ =~= start + badges(now));
        }
    }
    assert(all.take(keys@.len() as int) =~= all);
}

/// Draws the help line, each key as a reverse-video badge.
pub fn draw_hints(out: &mut Canvas, hints: &Vec<Hint>)
    ensures
        final(out)@ == old(out)@ + hints_ops(hint_models(hints@)),
{
    let ghost start = out@;
    let ghost all = hint_models(hints@);
    assert(out@ =~= start + hints_ops(all.take(0)));
    for i in 0..hints.len()
        invariant
            all == hint_models(hints@),
            out@ == start + hints_ops(all.take(i as int)),
    {
        if i > 0 {
            out.print("  ");
        }
        draw_badges(out, &hints[i].keys);
        out.print(" ".to_string().concat(hints[i].label).as_str());
        proof {
            let now = all.take(i + 1);
            assert(now.drop_last() =~= all.take(i as int));
            assert(now.last() == hints@[i as int]@);
            assert(out@ =~= start + hints_ops(now));
        }
    }
    assert(all.take(hints@.len() as int) =~= all);
}

/// What the right of the prompt says about the list below it.
pub open spec fn count_text(filtering: bool, matched: nat, total: nat) -> Seq<char> {
    if filtering {
        decimal(matched) + " of "@ + decimal(total)
    } else if total == 1 {
        "1 worktree"@
    } else {
        decimal(total) + " worktrees"@
    }
}

/// What the right of the prompt says about the list below it.
///
/// While filtering, this is the only place the size of the list is stated —
/// without it, typing something that matches nothing just empties the screen
/// with no explanation.
pub fn count_label(filter: &str, matched: usize, total: usize) -> (r: String)
    ensures
        r@ == count_text(filter@.len() > 0, matched as nat, total as nat),
{
    if !filter.is_empty() {
        return number(matched).concat(" of ").concat(number(total).as_str());
    }
    match total {
        1 => "1 worktree".to_string(),
        n => number(n).concat(" worktrees"),
    }
}

/// The hint shown behind the cursor of an empty filter.
pub open spec fn placeholder_of(filter: Seq<char>) -> Seq<char> {
    if filter.len() == 0 {
        PLACEHOLDER@
    } else {
        ""@
    }
}

/// The columns between the prompt and the count, where both fit on the line.
pub open spec fn gap(filter: Seq<char>, shown: Seq<char>, cols: int) -> int {
    cols - (2 + filter.len() + 1 + placeholder_of(filter).len() + shown.len())
}

/// The filter line.
pub open spec fn prompt_ops(picker: PickerModel, matched: nat, cols: int) -> Seq<OpModel> {
    let filter = picker.filter;
    let shown = count_text(filter.len() > 0, matched, picker.items.len());
    let typed = seq![
        OpModel::Print("> "@),
        OpModel::Print(filter),
        OpModel::Style(Attribute::Reverse),
        OpModel::Print(" "@),
        OpModel::Style(Attribute::Reset),
    ];
    let hint = if filter.len() == 0 {
        seq![
            OpModel::Style(Attribute::Dim),
            OpModel::Print(PLACEHOLDER@),
            OpModel::Style(Attribute::Reset),
        ]
    } else {
        Seq::empty()
    };
    let counted = if gap(filter, shown, cols) > 0 {
        seq![
            OpModel::Print(spaces(gap(filter, shown, cols) as nat)),
            OpModel::Style(Attribute::Dim),
            OpModel::Print(shown),
            OpModel::Style(Attribute::Reset),
        ]
    } else {
        Seq::empty()
    };
    typed + hint + counted
}

/// Draws the filter line: prompt, what has been typed, a block cursor, and —
/// while nothing is typed — what typing would do.
///
/// The terminal's own cursor is hidden for the whole picker, so the block is
/// drawn by hand as a space in reverse video. Without it, an empty filter line
/// is a lone `>` that gives no sign it accepts input.
pub fn draw_prompt(out: &mut Canvas, picker: &Picker, matched: usize, cols: usize)
    ensures
        final(out)@ == old(out)@ + prompt_ops(picker@, matched as nat, cols as int),
{
    let empty = picker.filter.as_str().is_empty();
    let placeholder = if empty {
        PLACEHOLDER
    } else {
        ""
    };
    let shown = count_label(picker.filter.as_str(), matched, picker.items.len());

    out.print("> ");
    out.print(picker.filter.as_str());
    out.set(Attribute::Reverse);
    out.print(" ");
    out.set(Attribute::Reset);
    if empty {
        out.set(Attribute::Dim);
        out.print(placeholder);
        out.set(Attribute::Reset);
    }
    // Right-aligned, and dropped rather than wrapped when the line is full.

    let room: usize = cols.saturating_sub(3).saturating_sub(
        count(picker.filter.as_str()),
    ).saturating_sub(count(placeholder)).saturating_sub(count(shown.as_str()));
    if room > 0 {
        out.print(blanks(room).as_str());
        out.set(Attribute::Dim);
        out.print(shown.as_str());
        out.set(Attribute::Reset);
    }
    assert(out@ =~= old(out)@ + prompt_ops(picker@, matched as nat, cols as int));
}

/// A row that many lines above the bottom edge, or the top one where the
/// screen is not that tall.
pub open spec fn from_bottom(rows: u16, n: int) -> u16 {
    if rows >= n {
        (rows - n) as u16
    } else {
        0
    }
}

/// The rows left for the list: everything but the header, the prompt, the help
/// line, and the message if there is one.
pub open spec fn list_height(rows: u16, message: bool) -> int {
    from_bottom(
        rows,
        if message {
            4
        } else {
            3
        },
    ) as int
}

/// The names of the rows the filter lets through.
pub open spec fn matching_names(picker: PickerModel) -> Seq<Seq<char>> {
    picker.matching().map_values(|i: int| picker.items[i].name)
}

/// How wide the first column is. It is never narrower than its label.
pub open spec fn name_width(picker: PickerModel) -> nat {
    column_width(matching_names(picker), NAME_HEADER@)
}

/// The column labels.
pub open spec fn header_text(width: nat) -> Seq<char> {
    "  "@ + padded(NAME_HEADER@, width) + "  "@ + HEAD_HEADER@ + "  "@ + STATUS_HEADER@
}

/// One row. The marker column says "you are standing here"; the cursor is the
/// highlight, so the two never compete for the same character.
pub open spec fn row_text(item: ItemModel, width: nat) -> Seq<char> {
    let marker = if item.is_current {
        "* "@
    } else {
        "  "@
    };
    let status = match item.note {
        Some(note) => note,
        None => PENDING@,
    };
    marker + padded(item.name, width) + "  "@ + item.head + "  "@ + status
}

/// How many rows of the list are drawn.
pub open spec fn rows_shown(picker: PickerModel, height: int) -> nat {
    let left = picker.matching().len() - picker.offset;
    if left <= 0 || height <= 0 {
        0
    } else if left < height {
        left as nat
    } else {
        height as nat
    }
}

/// One line, highlighted edge to edge where the cursor is.
pub open spec fn line_ops(row: u16, line: Seq<char>, highlighted: bool) -> Seq<OpModel> {
    seq![OpModel::MoveTo(0, row)] + if highlighted {
        seq![
            OpModel::Style(Attribute::Reverse),
            OpModel::Print(line),
            OpModel::Style(Attribute::Reset),
        ]
    } else {
        seq![OpModel::Print(line)]
    }
}

/// The row drawn at a place in the window, right below the header.
pub open spec fn row_ops(picker: PickerModel, row: int, cols: nat) -> Seq<OpModel> {
    let item = picker.items[picker.matching()[picker.offset + row]];
    line_ops(
        (row + 1) as u16,
        fitted(row_text(item, name_width(picker)), cols),
        picker.offset + row == picker.cursor,
    )
}

/// The first `n` rows drawn.
pub open spec fn rows_ops(picker: PickerModel, n: nat, cols: nat) -> Seq<OpModel>
    decreases n,
{
    if n == 0 {
        Seq::empty()
    } else {
        rows_ops(picker, (n - 1) as nat, cols) + row_ops(picker, n - 1, cols)
    }
}

/// The header, from a cleared screen. Bold and underlined, so that it stands
/// out on a terminal that renders only one of them; the underline runs the
/// full width, so it doubles as the rule between the header and the rows.
pub open spec fn header_ops(header: Seq<char>) -> Seq<OpModel> {
    seq![
        OpModel::Clear,
        OpModel::MoveTo(0, 0),
        OpModel::Style(Attribute::Bold),
        OpModel::Style(Attribute::Underlined),
        OpModel::Print(header),
        OpModel::Style(Attribute::Reset),
    ]
}

/// The message above the prompt.
pub open spec fn message_ops(message: Option<Seq<char>>, size: Size) -> Seq<OpModel> {
    match message {
        Some(text) => seq![
            OpModel::MoveTo(0, from_bottom(size.rows, 3)),
            OpModel::Print(cut(text, size.cols as nat)),
        ],
        None => Seq::empty(),
    }
}

/// A whole frame of the picker, for a list that is scrolled already.
pub open spec fn frame_ops(picker: PickerModel, message: Option<Seq<char>>, size: Size) -> Seq<
    OpModel,
> {
    let cols = size.cols as nat;
    let height = list_height(size.rows, message is Some);
    header_ops(fitted(header_text(name_width(picker)), cols)) + rows_ops(
        picker,
        rows_shown(picker, height),
        cols,
    ) + message_ops(message, size) + seq![OpModel::MoveTo(0, from_bottom(size.rows, 2))]
        + prompt_ops(picker, picker.matching().len(), size.cols as int) + seq![
        OpModel::MoveTo(0, from_bottom(size.rows, 1)),
    ] + hints_ops(fitting(hints_of(picker), cols))
}

/// The text of a message that may be missing.
pub open spec fn message_reading(message: Option<&str>) -> Option<Seq<char>> {
    match message {
        Some(text) => Some(text@),
        None => None,
    }
}

/// The row of the screen that many lines above the bottom edge.
fn row_from_bottom(rows: u16, n: u16) -> (r: u16)
    ensures
        r == from_bottom(rows, n as int),
{
    rows.saturating_sub(n)
}

fn line_of(item: &Item, width: usize) -> (r: String)
    ensures
        r@ == row_text(item@, width as nat),
{
    let marker = if item.is_current {
        "* "
    } else {
        "  "
    };
    let status = match &item.note {
        Some(note) => note.as_str(),
        None => PENDING,
    };
    marker.to_string().concat(pad(item.name.as_str(), width).as_str()).concat("  ").concat(
        item.head.as_str(),
    ).concat("  ").concat(status)
}

/// Draws one line, highlighted edge to edge where the cursor is. Reverse video
/// rather than a colour: it stays readable on any theme.
pub(crate) fn draw_line(out: &mut Canvas, row: u16, line: &str, highlighted: bool)
    ensures
        final(out)@ == old(out)@ + line_ops(row, line@, highlighted),
{
    out.move_to(0, row);
    if highlighted {
        out.set(Attribute::Reverse);
        out.print(line);
        out.set(Attribute::Reset);
    } else {
        out.print(line);
    }
    assert(out@ =~= old(out)@ + line_ops(row, line@, highlighted));
}

fn names_of(picker: &Picker, matches: &Vec<usize>) -> (r: Vec<String>)
    requires
        indices(matches@) == picker@.matching(),
        forall|k: int| 0 <= k < matches@.len() ==> #[trigger] matches@[k] < picker.items@.len(),
    ensures
        readings(r@) == matching_names(picker@),
{
    let mut r: Vec<String> = Vec::new();
    for k in 0..matches.len()
        invariant
            forall|k: int|
                0 <= k < matches@.len() ==> #[trigger] matches@[k] < picker.items@.len(),
            r@.len() == k,
            forall|j: int|
                0 <= j < k ==> (#[trigger] r@[j])@ == picker.items@[matches@[j] as int].name@,
    {
        r.push(picker.items[matches[k]].name.clone());
    }
    proof {
        assert(r@.len() == picker@.matching().len()) by {
            assert(indices(matches@).len() == matches@.len());
        }
        assert forall|j: int| 0 <= j < r@.len() implies readings(r@)[j] == matching_names(
            picker@,
        )[j] by {
            assert(indices(matches@)[j] == matches@[j]);
            assert(r@[j]@ == picker.items@[matches@[j] as int].name@);
        }
        assert(readings(r@) =~= matching_names(picker@));
    }
    r
}

fn draw_header(out: &mut Canvas, width: usize, cols: usize)
    ensures
        final(out)@ == old(out)@ + header_ops(fitted(header_text(width as nat), cols as nat)),
{
    let header = fit(
        "  ".to_string().concat(pad(NAME_HEADER, width).as_str()).concat("  ").concat(
            HEAD_HEADER,
        ).concat("  ").concat(STATUS_HEADER).as_str(),
        cols,
    );
    out.clear();
    out.move_to(0, 0);
    out.set(Attribute::Bold);
    out.set(Attribute::Underlined);
    out.print(header.as_str());
    out.set(Attribute::Reset);
    assert(out@ =~= old(out)@ + header_ops(header@));
}

fn draw_rows(
    out: &mut Canvas,
    picker: &Picker,
    matches: &Vec<usize>,
    width: usize,
    height: usize,
    cols: usize,
)
    requires
        indices(matches@) == picker@.matching(),
        forall|k: int| 0 <= k < matches@.len() ==> #[trigger] matches@[k] < picker.items@.len(),
        width == name_width(picker@),
        height < u16::MAX,
    ensures
        final(out)@ == old(out)@ + rows_ops(
            picker@,
            rows_shown(picker@, height as int),
            cols as nat,
        ),
{
    let ghost start = out@;
    let ghost now = picker@;
    assert(indices(matches@).len() == matches@.len());
    assert(out@ =~= start + rows_ops(now, 0, cols as nat));
    let mut row: usize = 0;
    while row < height && picker.offset < matches.len() && row < matches.len() - picker.offset
        invariant
            now == picker@,
            height < u16::MAX,
            indices(matches@) == now.matching(),
            matches@.len() == now.matching().len(),
            forall|k: int|
                0 <= k < matches@.len() ==> #[trigger] matches@[k] < picker.items@.len(),
            width == name_width(now),
            row <= rows_shown(now, height as int),
            out@ == start + rows_ops(now, row as nat, cols as nat),
        decreases height - row,
    {
        let at: usize = picker.offset + row;
        let item = &picker.items[matches[at]];
        assert(indices(matches@)[at as int] == matches@[at as int]);
        let line = fit(line_of(item, width).as_str(), cols);
        draw_line(out, row as u16 + 1, line.as_str(), at == picker.cursor);
        row += 1;
        assert(out@ =~= start + rows_ops(now, row as nat, cols as nat));
    }
    assert(row == rows_shown(now, height as int));
}

fn draw_message(out: &mut Canvas, message: Option<&str>, size: Size)
    ensures
        final(out)@ == old(out)@ + message_ops(message_reading(message), size),
{
    if let Some(text) = message {
        out.move_to(0, row_from_bottom(size.rows, 3));
        out.print(truncate(text, size.cols).as_str());
    }
    assert(out@ =~= old(out)@ + message_ops(message_reading(message), size));
}

/// Draws the picker.
///
/// The table starts at the top, so the header sits against the rows it labels;
/// the filter joins the help line at the bottom, where the things you operate
/// live.
pub fn draw(out: &mut Canvas, picker: &mut Picker, message: Option<&str>, size: Size)
    ensures
        final(picker)@ == old(picker)@.scrolled(list_height(size.rows, message is Some)),
        final(out)@ == old(out)@ + frame_ops(final(picker)@, message_reading(message), size),
        drawable(old(out)@) ==> drawable(final(out)@),
{
    // The prompt, the header, the help line, and any message.
    let reserved: u16 = if message.is_some() {
        4
    } else {
        3
    };
    let height: usize = row_from_bottom(size.rows, reserved) as usize;
    picker.scroll_into_view(height);

    let matches = picker.matches();
    let width: usize = widest(&names_of(picker, &matches), NAME_HEADER);
    assert(indices(matches@).len() == matches@.len());
    let ghost start = out@;

    draw_header(out, width, size.cols);
    draw_rows(out, picker, &matches, width, height, size.cols);
    draw_message(out, message, size);
    out.move_to(0, row_from_bottom(size.rows, 2));
    draw_prompt(out, picker, matches.len(), size.cols);
    out.move_to(0, row_from_bottom(size.rows, 1));
    proof {
        law_help_lines_fit_eighty_columns();
    }
    draw_hints(out, &hints_that_fit(hints_for(picker), size.cols));
    proof {
        lemma_frame_parts(
            start,
            header_ops(fitted(header_text(width as nat), size.cols as nat)),
            rows_ops(picker@, rows_shown(picker@, height as int), size.cols as nat),
            message_ops(message_reading(message), size),
            OpModel::MoveTo(0, from_bottom(size.rows, 2)),
            prompt_ops(picker@, matches@.len(), size.cols as int),
            OpModel::MoveTo(0, from_bottom(size.rows, 1)),
            hints_ops(fitting(hints_of(picker@), size.cols as nat)),
        );
        lemma_frame_drawable(picker@, message_reading(message), size);
        lemma_drawable_add(start, frame_ops(picker@, message_reading(message), size));
    }
}

/// Parts drawn one after the other make up a frame.
proof fn lemma_frame_parts(
    start: Seq<OpModel>,
    header: Seq<OpModel>,
    rows: Seq<OpModel>,
    message: Seq<OpModel>,
    to_prompt: OpModel,
    prompt: Seq<OpModel>,
    to_help: OpModel,
    help: Seq<OpModel>,
)
    ensures
        ((start + header + rows + message).push(to_prompt) + prompt).push(to_help) + help == start
            + (header + rows + message + seq![to_prompt] + prompt + seq![to_help] + help),
{
    assert(((start + header + rows + message).push(to_prompt) + prompt).push(to_help) + help
        =~= start + (header + rows + message + seq![to_prompt] + prompt + seq![to_help] + help));
}

/// Frames that can be sent one by one can be sent together.
pub proof fn lemma_drawable_add(a: Seq<OpModel>, b: Seq<OpModel>)
    requires
        drawable(b),
    ensures
        drawable(a) ==> drawable(a + b),
{
}

proof fn lemma_badges_drawable(keys: Seq<Seq<char>>)
    ensures
        drawable(badges(keys)),
    decreases keys.len(),
{
    if keys.len() > 1 {
        lemma_badges_drawable(keys.drop_last());
    }
}

/// The help line holds no position at all.
pub proof fn lemma_hints_drawable(hints: Seq<HintModel>)
    ensures
        drawable(hints_ops(hints)),
    decreases hints.len(),
{
    if hints.len() > 0 {
        lemma_badges_drawable(hints.last().keys);
        assert(drawable(hint_ops(hints.last())));
        if hints.len() > 1 {
            lemma_hints_drawable(hints.drop_last());
        }
    }
}

proof fn lemma_rows_drawable(picker: PickerModel, n: nat, cols: nat)
    requires
        n < u16::MAX,
    ensures
        drawable(rows_ops(picker, n, cols)),
    decreases n,
{
    if n > 0 {
        lemma_rows_drawable(picker, (n - 1) as nat, cols);
        assert(drawable(row_ops(picker, n - 1, cols)));
    }
}

proof fn lemma_frame_drawable(picker: PickerModel, message: Option<Seq<char>>, size: Size)
    ensures
        drawable(frame_ops(picker, message, size)),
{
    let cols = size.cols as nat;
    let height = list_height(size.rows, message is Some);
    lemma_rows_drawable(picker, rows_shown(picker, height), cols);
    lemma_hints_drawable(fitting(hints_of(picker), cols));
    assert(drawable(prompt_ops(picker, picker.matching().len(), size.cols as int)));
    assert(drawable(message_ops(message, size)));
    assert(drawable(header_ops(fitted(header_text(name_width(picker)), cols))));
}

} // verus!
