//! What holds of every frame, whatever is on it.

use vstd::prelude::*;

use crate::commands::clean::{
    candidate_names, candidate_verdicts, state_label, verdict_text, CandidateModel, State,
    NAME_HEADER as CLEAN_NAME_HEADER, NOTE_HEADER, VERDICT_HEADER,
};
use crate::git::WorktreeModel;
use crate::path::lossy;
use crate::text::{cut, decimal, fitted, padded, spaces};
use crate::tui::clean_screen::{
    clean_head_ops, clean_header, clean_name_width, clean_foot_ops, clean_ops, clean_row,
    clean_row_ops, clean_rows, clean_rows_ops, clean_verdict_width, tally, ticked_indices, QUESTION,
};
use crate::tui::dialog::{branch_line, dialog_ops, keys_line};
use crate::tui::draw::{
    badge, badges, count_text, frame_ops, from_bottom, gap, header_ops, header_text, hint_ops,
    hints_ops, line_ops, list_height, message_ops, name_width, prompt_ops, row_ops, row_text,
    rows_ops, rows_shown, HEAD_HEADER, NAME_HEADER, PENDING, PLACEHOLDER, STATUS_HEADER,
};
use crate::tui::hints::{
    badges_width, cleaning_hints, entries_width, filtering_hints, fitting, hint_width, hints_of,
    idle_hints, law_required_hints_survive, line_width, HintModel,
};
use crate::tui::picker::{law_matching_rows, ItemModel, PickerModel};
use crate::tui::screen::{law_printing_goes_piece_by_piece, printed, OpModel, Size};

verus! {

/// A text of ASCII characters and these others.
pub open spec fn plain(text: Seq<char>, others: Set<char>) -> bool {
    forall|i: int|
        0 <= i < text.len() ==> (#[trigger] text[i] as u32) < 128 || others.contains(text[i])
}

/// Nothing is printed but ASCII characters and these others.
pub open spec fn plain_ops(ops: Seq<OpModel>, others: Set<char>) -> bool {
    forall|i: int| 0 <= i < ops.len() ==> plain_op(#[trigger] ops[i], others)
}

pub open spec fn plain_op(op: OpModel, others: Set<char>) -> bool {
    match op {
        OpModel::Print(text) => plain(text, others),
        _ => true,
    }
}

/// What a row holds is made of ASCII characters and these others.
pub open spec fn plain_item(item: ItemModel, others: Set<char>) -> bool {
    &&& plain(item.name, others)
    &&& plain(item.head, others)
    &&& item.note matches Some(note) ==> plain(note, others)
}

/// What a candidate holds is made of ASCII characters and these others.
pub open spec fn plain_candidate(candidate: CandidateModel, others: Set<char>) -> bool {
    plain(candidate.name, others) && plain(candidate.note, others)
}

proof fn lemma_plain_decimal(n: nat, others: Set<char>)
    ensures
        plain(decimal(n), others),
    decreases n,
{
    if n >= 10 {
        lemma_plain_decimal(n / 10, others);
    }
}

proof fn lemma_plain_add(a: Seq<char>, b: Seq<char>, others: Set<char>)
    requires
        plain(a, others),
        plain(b, others),
    ensures
        plain(a + b, others),
{
    assert forall|i: int| 0 <= i < (a + b).len() implies (#[trigger] (a + b)[i] as u32) < 128
        || others.contains((a + b)[i]) by {
        if i < a.len() {
            assert((a + b)[i] == a[i]);
        } else {
            assert((a + b)[i] == b[i - a.len()]);
        }
    }
}

proof fn lemma_plain_widths(text: Seq<char>, width: nat, others: Set<char>)
    requires
        plain(text, others),
    ensures
        plain(spaces(width), others),
        plain(fitted(text, width), others),
        plain(padded(text, width), others),
        plain(cut(text, width), others),
{
    if text.len() < width {
        lemma_plain_add(text, spaces((width - text.len()) as nat), others);
    }
}

proof fn lemma_plain_ops_add(a: Seq<OpModel>, b: Seq<OpModel>, others: Set<char>)
    requires
        plain_ops(a, others),
        plain_ops(b, others),
    ensures
        plain_ops(a + b, others),
{
    assert forall|i: int| 0 <= i < (a + b).len() implies plain_op(#[trigger] (a + b)[i], others) by {
        if i < a.len() {
            assert((a + b)[i] == a[i]);
        } else {
            assert((a + b)[i] == b[i - a.len()]);
        }
    }
}

/// The words of the picker.
proof fn lemma_picker_words(others: Set<char>)
    ensures
        plain(""@, others),
        plain(" "@, others),
        plain("  "@, others),
        plain("* "@, others),
        plain("> "@, others),
        plain(" of "@, others),
        plain("1 worktree"@, others),
        plain(" worktrees"@, others),
        plain(PLACEHOLDER@, others),
        plain(PENDING@, others),
        plain(NAME_HEADER@, others),
        plain(HEAD_HEADER@, others),
        plain(STATUS_HEADER@, others),
{
    reveal_strlit("");
    reveal_strlit(" ");
    reveal_strlit("  ");
    reveal_strlit("* ");
    reveal_strlit("> ");
    reveal_strlit(" of ");
    reveal_strlit("1 worktree");
    reveal_strlit(" worktrees");
    reveal_strlit("type to filter");
    reveal_strlit("...");
    reveal_strlit("WORKTREE");
    reveal_strlit("HEAD   ");
    reveal_strlit("STATUS");
}

/// The words of the dialog.
proof fn lemma_dialog_words(others: Set<char>)
    ensures
        plain("Remove this worktree?"@, others),
        plain("  "@, others),
        plain("  ! uncommitted changes will be lost"@, others),
        plain("  branch `"@, others),
        plain("` ("@, others),
        plain("merged"@, others),
        plain("NOT merged"@, others),
        plain(")"@, others),
        plain(keys_line(true), others),
        plain(keys_line(false), others),
{
    reveal_strlit("Remove this worktree?");
    reveal_strlit("  ");
    reveal_strlit("  ! uncommitted changes will be lost");
    reveal_strlit("  branch `");
    reveal_strlit("` (");
    reveal_strlit("merged");
    reveal_strlit("NOT merged");
    reveal_strlit(")");
    reveal_strlit("[y] remove worktree   [b] remove worktree and branch   [n] cancel");
    reveal_strlit("[y] remove worktree   [n] cancel");
}

/// The words of the clean screen.
proof fn lemma_clean_words(others: Set<char>)
    ensures
        plain(QUESTION@, others),
        plain("      "@, others),
        plain(CLEAN_NAME_HEADER@, others),
        plain(VERDICT_HEADER@, others),
        plain(NOTE_HEADER@, others),
        plain(">"@, others),
        plain("x"@, others),
        plain(" ["@, others),
        plain("] "@, others),
        plain(" selected"@, others),
        plain("yes"@, others),
        plain("no"@, others),
        plain(" ("@, others),
        plain(")"@, others),
        plain("done"@, others),
        plain("pushed"@, others),
        plain("local"@, others),
        plain("dirty"@, others),
{
    reveal_strlit("Select worktrees to remove");
    reveal_strlit("      ");
    reveal_strlit("WORKTREE");
    reveal_strlit("SAFE TO REMOVE");
    reveal_strlit("NOTE");
    reveal_strlit(">");
    reveal_strlit("x");
    reveal_strlit(" [");
    reveal_strlit("] ");
    reveal_strlit(" selected");
    reveal_strlit("yes");
    reveal_strlit("no");
    reveal_strlit(" (");
    reveal_strlit(")");
    reveal_strlit("done");
    reveal_strlit("pushed");
    reveal_strlit("local");
    reveal_strlit("dirty");
}

/// Keys and labels are made of ASCII characters.
pub open spec fn plain_hint(hint: HintModel, others: Set<char>) -> bool {
    &&& plain(hint.label, others)
    &&& forall|k: int| 0 <= k < hint.keys.len() ==> plain(#[trigger] hint.keys[k], others)
}

/// The help lines are made of ASCII characters alone.
pub proof fn law_help_lines_are_ascii()
    ensures
        forall|i: int|
            0 <= i < idle_hints().len() ==> plain_hint(#[trigger] idle_hints()[i], Set::empty()),
        forall|i: int|
            0 <= i < filtering_hints().len() ==> plain_hint(
                #[trigger] filtering_hints()[i],
                Set::empty(),
            ),
        forall|i: int|
            0 <= i < cleaning_hints().len() ==> plain_hint(
                #[trigger] cleaning_hints()[i],
                Set::empty(),
            ),
{
    reveal_strlit("up/down");
    reveal_strlit("enter");
    reveal_strlit("ctrl-d");
    reveal_strlit("backspace");
    reveal_strlit("esc");
    reveal_strlit("space");
    reveal_strlit("move");
    reveal_strlit("cd");
    reveal_strlit("delete");
    reveal_strlit("erase");
    reveal_strlit("cancel");
    reveal_strlit("toggle");
    reveal_strlit("remove");
}

proof fn lemma_badges_printed(keys: Seq<Seq<char>>)
    ensures
        printed(badges(keys)).len() == badges_width(keys) + if keys.len() > 0 {
            keys.len() - 1
        } else {
            0
        },
    decreases keys.len(),
{
    reveal_strlit(" ");
    if keys.len() > 0 {
        let key = keys.last();
        let space = seq![OpModel::Print(" "@)];
        reveal_with_fuel(printed, 4);
        assert(badge(key).drop_last().drop_last().drop_last() =~= Seq::<OpModel>::empty());
        assert(printed(badge(key)).len() == key.len() + 2);
        assert(space.drop_last() =~= Seq::<OpModel>::empty());
        assert(printed(space).len() == 1);
        if keys.len() == 1 {
            assert(keys.drop_last() =~= Seq::<Seq<char>>::empty());
        } else {
            let front = keys.drop_last();
            lemma_badges_printed(front);
            law_printing_goes_piece_by_piece(badges(front), space);
            law_printing_goes_piece_by_piece(badges(front) + space, badge(key));
        }
    }
}

/// The width a help line is measured by is the number of characters it shows.
pub proof fn law_a_help_line_is_as_wide_as_it_measures(hints: Seq<HintModel>)
    requires
        forall|i: int| 0 <= i < hints.len() ==> (#[trigger] hints[i]).keys.len() > 0,
    ensures
        printed(hints_ops(hints)).len() == line_width(hints),
    decreases hints.len(),
{
    reveal_strlit(" ");
    reveal_strlit("  ");
    if hints.len() > 0 {
        let hint = hints.last();
        assert(hints[hints.len() - 1].keys.len() > 0);
        let label = seq![OpModel::Print(" "@ + hint.label)];
        let between = seq![OpModel::Print("  "@)];
        assert(label.drop_last() =~= Seq::<OpModel>::empty());
        assert(between.drop_last() =~= Seq::<OpModel>::empty());
        reveal_with_fuel(printed, 2);
        assert(printed(label).len() == 1 + hint.label.len());
        assert(printed(between).len() == 2);
        lemma_badges_printed(hint.keys);
        law_printing_goes_piece_by_piece(badges(hint.keys), label);
        assert(printed(hint_ops(hint)).len() == hint_width(hint));
        let front = hints.drop_last();
        if hints.len() == 1 {
            assert(front =~= Seq::<HintModel>::empty());
            assert(entries_width(front) == 0);
            assert(line_width(hints) == hint_width(hint));
            assert(hints_ops(hints) == hint_ops(hint));
        } else {
            assert(line_width(hints) == line_width(front) + 2 + hint_width(hint));
            assert forall|i: int| 0 <= i < front.len() implies (#[trigger] front[i]).keys.len()
                > 0 by {
                assert(front[i] == hints[i]);
            }
            law_a_help_line_is_as_wide_as_it_measures(front);
            law_printing_goes_piece_by_piece(hints_ops(front), between);
            law_printing_goes_piece_by_piece(hints_ops(front) + between, hint_ops(hint));
            assert(hints_ops(hints) == hints_ops(front) + between + hint_ops(hint));
        }
    }
}

proof fn lemma_plain_badges(keys: Seq<Seq<char>>, others: Set<char>)
    requires
        forall|k: int| 0 <= k < keys.len() ==> plain(#[trigger] keys[k], others),
    ensures
        plain_ops(badges(keys), others),
    decreases keys.len(),
{
    lemma_picker_words(others);
    if keys.len() > 0 {
        let key = keys.last();
        lemma_plain_add(" "@, key, others);
        lemma_plain_add(" "@ + key, " "@, others);
        assert(plain_ops(badge(key), others));
        if keys.len() > 1 {
            let front = keys.drop_last();
            assert forall|k: int| 0 <= k < front.len() implies plain(#[trigger] front[k], others) by {
                assert(front[k] == keys[k]);
            }
            lemma_plain_badges(front, others);
            assert(plain_ops(seq![OpModel::Print(" "@)], others));
            lemma_plain_ops_add(badges(front), seq![OpModel::Print(" "@)], others);
            lemma_plain_ops_add(badges(front) + seq![OpModel::Print(" "@)], badge(key), others);
        }
    }
}

proof fn lemma_plain_hints(hints: Seq<HintModel>, others: Set<char>)
    requires
        forall|i: int| 0 <= i < hints.len() ==> plain_hint(#[trigger] hints[i], others),
    ensures
        plain_ops(hints_ops(hints), others),
    decreases hints.len(),
{
    lemma_picker_words(others);
    if hints.len() > 0 {
        let hint = hints.last();
        assert(plain_hint(hints[hints.len() - 1], others));
        lemma_plain_badges(hint.keys, others);
        lemma_plain_add(" "@, hint.label, others);
        assert(plain_ops(seq![OpModel::Print(" "@ + hint.label)], others));
        lemma_plain_ops_add(badges(hint.keys), seq![OpModel::Print(" "@ + hint.label)], others);
        if hints.len() > 1 {
            let front = hints.drop_last();
            assert forall|i: int| 0 <= i < front.len() implies plain_hint(
                #[trigger] front[i],
                others,
            ) by {
                assert(front[i] == hints[i]);
            }
            lemma_plain_hints(front, others);
            assert(plain_ops(seq![OpModel::Print("  "@)], others));
            lemma_plain_ops_add(hints_ops(front), seq![OpModel::Print("  "@)], others);
            lemma_plain_ops_add(
                hints_ops(front) + seq![OpModel::Print("  "@)],
                hint_ops(hint),
                others,
            );
        }
    }
}

/// A help line stays made of ASCII characters, however many entries it drops.
proof fn lemma_plain_help(hints: Seq<HintModel>, cols: nat, others: Set<char>)
    requires
        forall|i: int| 0 <= i < hints.len() ==> plain_hint(#[trigger] hints[i], Set::empty()),
    ensures
        plain_ops(hints_ops(fitting(hints, cols)), others),
{
    law_required_hints_survive(hints, cols);
    let left = fitting(hints, cols);
    assert forall|i: int| 0 <= i < left.len() implies plain_hint(#[trigger] left[i], others) by {
        assert(hints.contains(left[i]));
        let j = choose|j: int| 0 <= j < hints.len() && hints[j] == left[i];
        assert(plain_hint(hints[j], Set::empty()));
        assert forall|k: int| 0 <= k < left[i].keys.len() implies plain(
            #[trigger] left[i].keys[k],
            others,
        ) by {
            assert(plain(hints[j].keys[k], Set::empty()));
        }
    }
    lemma_plain_hints(left, others);
}

proof fn lemma_plain_row_text(item: ItemModel, width: nat, others: Set<char>)
    requires
        plain_item(item, others),
    ensures
        plain(row_text(item, width), others),
{
    lemma_picker_words(others);
    lemma_plain_widths(item.name, width, others);
    let marker = if item.is_current {
        "* "@
    } else {
        "  "@
    };
    let a = marker + padded(item.name, width);
    lemma_plain_add(marker, padded(item.name, width), others);
    lemma_plain_add(a, "  "@, others);
    lemma_plain_add(a + "  "@, item.head, others);
    let b = a + "  "@ + item.head;
    lemma_plain_add(b, "  "@, others);
    let status = match item.note {
        Some(note) => note,
        None => PENDING@,
    };
    lemma_plain_add(b + "  "@, status, others);
}

proof fn lemma_plain_header(width: nat, cols: nat, others: Set<char>)
    ensures
        plain_ops(header_ops(fitted(header_text(width), cols)), others),
{
    lemma_picker_words(others);
    lemma_plain_widths(NAME_HEADER@, width, others);
    let a = "  "@ + padded(NAME_HEADER@, width);
    lemma_plain_add("  "@, padded(NAME_HEADER@, width), others);
    lemma_plain_add(a, "  "@, others);
    lemma_plain_add(a + "  "@, HEAD_HEADER@, others);
    let b = a + "  "@ + HEAD_HEADER@;
    lemma_plain_add(b, "  "@, others);
    lemma_plain_add(b + "  "@, STATUS_HEADER@, others);
    lemma_plain_widths(header_text(width), cols, others);
}

proof fn lemma_plain_rows(picker: PickerModel, n: nat, cols: nat, others: Set<char>)
    requires
        0 <= picker.offset,
        n > 0 ==> picker.offset + n <= picker.matching().len(),
        forall|i: int| 0 <= i < picker.items.len() ==> plain_item(#[trigger] picker.items[i], others),
    ensures
        plain_ops(rows_ops(picker, n, cols), others),
    decreases n,
{
    if n > 0 {
        lemma_plain_rows(picker, (n - 1) as nat, cols, others);
        law_matching_rows(picker);
        let at = picker.matching()[picker.offset + n - 1];
        let item = picker.items[at];
        lemma_plain_row_text(item, name_width(picker), others);
        lemma_plain_widths(row_text(item, name_width(picker)), cols, others);
        assert(plain_ops(row_ops(picker, n - 1, cols), others));
        lemma_plain_ops_add(
            rows_ops(picker, (n - 1) as nat, cols),
            row_ops(picker, n - 1, cols),
            others,
        );
    }
}

proof fn lemma_plain_prompt(picker: PickerModel, matched: nat, cols: int, others: Set<char>)
    requires
        plain(picker.filter, others),
    ensures
        plain_ops(prompt_ops(picker, matched, cols), others),
{
    lemma_picker_words(others);
    let total = picker.items.len();
    lemma_plain_decimal(matched, others);
    lemma_plain_decimal(total, others);
    lemma_plain_add(decimal(matched), " of "@, others);
    lemma_plain_add(decimal(matched) + " of "@, decimal(total), others);
    lemma_plain_add(decimal(total), " worktrees"@, others);
    let shown = count_text(picker.filter.len() > 0, matched, total);
    assert(plain(shown, others));
    if gap(picker.filter, shown, cols) > 0 {
        lemma_plain_widths(shown, gap(picker.filter, shown, cols) as nat, others);
    }
    assert(plain_ops(prompt_ops(picker, matched, cols), others));
}

/// Everything the picker draws is plain ASCII, but for what it was given: a
/// character that is none comes out of a name, a commit id, a status, the filter
/// or the message.
pub proof fn law_the_picker_draws_plain_ascii(
    picker: PickerModel,
    message: Option<Seq<char>>,
    size: Size,
    others: Set<char>,
)
    requires
        0 <= picker.offset,
        plain(picker.filter, others),
        message matches Some(text) ==> plain(text, others),
        forall|i: int| 0 <= i < picker.items.len() ==> plain_item(#[trigger] picker.items[i], others),
    ensures
        plain_ops(frame_ops(picker, message, size), others),
{
    let cols = size.cols as nat;
    let height = list_height(size.rows, message is Some);
    let header = header_ops(fitted(header_text(name_width(picker)), cols));
    let rows = rows_ops(picker, rows_shown(picker, height), cols);
    let told = message_ops(message, size);
    let to_prompt = seq![OpModel::MoveTo(0, from_bottom(size.rows, 2))];
    let prompt = prompt_ops(picker, picker.matching().len(), size.cols as int);
    let to_help = seq![OpModel::MoveTo(0, from_bottom(size.rows, 1))];
    let help = hints_ops(fitting(hints_of(picker), cols));
    lemma_plain_header(name_width(picker), cols, others);
    lemma_plain_rows(picker, rows_shown(picker, height), cols, others);
    if message is Some {
        lemma_plain_widths(message->0, cols, others);
    }
    assert(plain_ops(told, others));
    lemma_plain_prompt(picker, picker.matching().len(), size.cols as int, others);
    law_help_lines_are_ascii();
    lemma_plain_help(hints_of(picker), cols, others);
    lemma_plain_ops_add(header, rows, others);
    lemma_plain_ops_add(header + rows, told, others);
    lemma_plain_ops_add(header + rows + told, to_prompt, others);
    lemma_plain_ops_add(header + rows + told + to_prompt, prompt, others);
    lemma_plain_ops_add(header + rows + told + to_prompt + prompt, to_help, others);
    lemma_plain_ops_add(header + rows + told + to_prompt + prompt + to_help, help, others);
}

/// So is everything the dialog draws, but for the path and the branch.
pub proof fn law_the_dialog_draws_plain_ascii(
    worktree: WorktreeModel,
    dirty: bool,
    merged: bool,
    rows: u16,
    others: Set<char>,
)
    requires
        plain(lossy(worktree.path), others),
        worktree.branch matches Some(branch) ==> plain(branch, others),
    ensures
        plain_ops(dialog_ops(worktree, dirty, merged, rows), others),
{
    lemma_dialog_words(others);
    lemma_plain_add("  "@, lossy(worktree.path), others);
    if let Some(branch) = worktree.branch {
        let state = if merged {
            "merged"@
        } else {
            "NOT merged"@
        };
        lemma_plain_add("  branch `"@, branch, others);
        lemma_plain_add("  branch `"@ + branch, "` ("@, others);
        lemma_plain_add("  branch `"@ + branch + "` ("@, state, others);
        lemma_plain_add("  branch `"@ + branch + "` ("@ + state, ")"@, others);
        assert(plain(branch_line(branch, merged), others));
    }
    assert(plain_ops(dialog_ops(worktree, dirty, merged, rows), others));
}

proof fn lemma_plain_verdict(state: State, with_branch: bool, others: Set<char>)
    ensures
        plain(verdict_text(state, with_branch), others),
{
    lemma_clean_words(others);
    let yes_no = if crate::commands::clean::is_safe(state, with_branch) {
        "yes"@
    } else {
        "no"@
    };
    assert(plain(state_label(state), others));
    lemma_plain_add(yes_no, " ("@, others);
    lemma_plain_add(yes_no + " ("@, state_label(state), others);
    lemma_plain_add(yes_no + " ("@ + state_label(state), ")"@, others);
}

proof fn lemma_plain_clean_row(
    under_cursor: bool,
    on: bool,
    name: Seq<char>,
    name_width: nat,
    verdict: Seq<char>,
    verdict_width: nat,
    note: Seq<char>,
    others: Set<char>,
)
    requires
        plain(name, others),
        plain(verdict, others),
        plain(note, others),
    ensures
        plain(
            clean_row(under_cursor, on, name, name_width, verdict, verdict_width, note),
            others,
        ),
{
    lemma_clean_words(others);
    lemma_picker_words(others);
    lemma_plain_widths(name, name_width, others);
    lemma_plain_widths(verdict, verdict_width, others);
    let cursor = if under_cursor {
        ">"@
    } else {
        " "@
    };
    let mark = if on {
        "x"@
    } else {
        " "@
    };
    lemma_plain_add(cursor, " ["@, others);
    lemma_plain_add(cursor + " ["@, mark, others);
    lemma_plain_add(cursor + " ["@ + mark, "] "@, others);
    let a = cursor + " ["@ + mark + "] "@;
    lemma_plain_add(a, padded(name, name_width), others);
    let b = a + padded(name, name_width);
    lemma_plain_add(b, "  "@, others);
    lemma_plain_add(b + "  "@, padded(verdict, verdict_width), others);
    let c = b + "  "@ + padded(verdict, verdict_width);
    lemma_plain_add(c, "  "@, others);
    lemma_plain_add(c + "  "@, note, others);
}

proof fn lemma_plain_clean_rows(
    list: Seq<CandidateModel>,
    ticked: Seq<bool>,
    cursor_at: int,
    with_branch: bool,
    n: nat,
    cols: nat,
    others: Set<char>,
)
    requires
        n <= list.len(),
        forall|i: int| 0 <= i < list.len() ==> plain_candidate(#[trigger] list[i], others),
    ensures
        plain_ops(clean_rows_ops(list, ticked, cursor_at, with_branch, n, cols), others),
    decreases n,
{
    if n > 0 {
        lemma_plain_clean_rows(
            list,
            ticked,
            cursor_at,
            with_branch,
            (n - 1) as nat,
            cols,
            others,
        );
        let i = n - 1;
        assert(plain_candidate(list[i], others));
        lemma_plain_verdict(list[i].state, with_branch, others);
        assert(candidate_names(list)[i] == list[i].name);
        assert(candidate_verdicts(list, with_branch)[i] == verdict_text(list[i].state, with_branch));
        let text = clean_row(
            i == cursor_at,
            ticked[i],
            candidate_names(list)[i],
            clean_name_width(list),
            candidate_verdicts(list, with_branch)[i],
            clean_verdict_width(list, with_branch),
            list[i].note,
        );
        lemma_plain_clean_row(
            i == cursor_at,
            ticked[i],
            candidate_names(list)[i],
            clean_name_width(list),
            candidate_verdicts(list, with_branch)[i],
            clean_verdict_width(list, with_branch),
            list[i].note,
            others,
        );
        lemma_plain_widths(text, cols, others);
        assert(plain_ops(clean_row_ops(list, ticked, cursor_at, with_branch, i, cols), others));
        lemma_plain_ops_add(
            clean_rows_ops(list, ticked, cursor_at, with_branch, (n - 1) as nat, cols),
            clean_row_ops(list, ticked, cursor_at, with_branch, i, cols),
            others,
        );
    }
}

/// So is everything the clean screen draws, but for names and notes.
pub proof fn law_the_clean_screen_draws_plain_ascii(
    list: Seq<CandidateModel>,
    ticked: Seq<bool>,
    cursor_at: int,
    with_branch: bool,
    size: Size,
    others: Set<char>,
)
    requires
        forall|i: int| 0 <= i < list.len() ==> plain_candidate(#[trigger] list[i], others),
    ensures
        plain_ops(clean_ops(list, ticked, cursor_at, with_branch, size), others),
{
    let cols = size.cols as nat;
    let name_width = clean_name_width(list);
    let verdict_width = clean_verdict_width(list, with_branch);
    lemma_clean_words(others);
    lemma_picker_words(others);
    lemma_plain_widths(CLEAN_NAME_HEADER@, name_width, others);
    lemma_plain_widths(VERDICT_HEADER@, verdict_width, others);
    let a = "      "@ + padded(CLEAN_NAME_HEADER@, name_width);
    lemma_plain_add("      "@, padded(CLEAN_NAME_HEADER@, name_width), others);
    lemma_plain_add(a, "  "@, others);
    lemma_plain_add(a + "  "@, padded(VERDICT_HEADER@, verdict_width), others);
    let b = a + "  "@ + padded(VERDICT_HEADER@, verdict_width);
    lemma_plain_add(b, "  "@, others);
    lemma_plain_add(b + "  "@, NOTE_HEADER@, others);
    lemma_plain_widths(clean_header(name_width, verdict_width), cols, others);
    let head = clean_head_ops(fitted(clean_header(name_width, verdict_width), cols));
    assert(plain_ops(head, others));

    let shown = clean_rows(list.len(), size.rows);
    lemma_plain_clean_rows(list, ticked, cursor_at, with_branch, shown, cols, others);
    let rows = clean_rows_ops(list, ticked, cursor_at, with_branch, shown, cols);

    let count = ticked_indices(ticked).len();
    lemma_plain_decimal(count, others);
    lemma_plain_decimal(list.len(), others);
    lemma_plain_add(decimal(count), " of "@, others);
    lemma_plain_add(decimal(count) + " of "@, decimal(list.len()), others);
    lemma_plain_add(decimal(count) + " of "@ + decimal(list.len()), " selected"@, others);
    lemma_plain_widths(tally(ticked, list.len()), cols, others);
    law_help_lines_are_ascii();
    lemma_plain_help(cleaning_hints(), cols, others);
    let foot = clean_foot_ops(ticked, list.len(), size);
    assert(plain_ops(foot, others));
    lemma_plain_ops_add(head, rows, others);
    lemma_plain_ops_add(head + rows, foot, others);
}

/// The header and every row are exactly as wide as the screen, so a highlight
/// runs from edge to edge and nothing wraps.
pub proof fn law_every_line_spans_the_screen(item: ItemModel, width: nat, cols: nat)
    ensures
        fitted(header_text(width), cols).len() == cols,
        fitted(row_text(item, width), cols).len() == cols,
{
}

/// Rows are drawn below the header and above the message, the prompt and the
/// help line.
pub proof fn law_rows_leave_the_rest_alone(picker: PickerModel, message: bool, rows: u16, k: int)
    requires
        0 <= k < rows_shown(picker, list_height(rows, message)),
    ensures
        0 < k + 1 < from_bottom(rows, 2),
        message ==> k + 1 < from_bottom(rows, 3),
        from_bottom(rows, 3) < from_bottom(rows, 2) < from_bottom(rows, 1) < rows,
{
}

/// Once the list is scrolled, the row under the cursor is among those drawn, on
/// any screen with room for one, and it alone is highlighted.
pub proof fn law_the_cursor_row_is_drawn(picker: PickerModel, height: int, cols: nat)
    requires
        picker.cursor_inside(),
        0 <= picker.offset,
        picker.matching().len() > 0,
        height > 0,
    ensures
        ({
            let seen = picker.scrolled(height);
            let at = seen.cursor - seen.offset;
            &&& 0 <= at < rows_shown(seen, height)
            &&& forall|k: int|
                0 <= k < rows_shown(seen, height) ==> #[trigger] row_ops(seen, k, cols) == line_ops(
                    (k + 1) as u16,
                    fitted(
                        row_text(
                            seen.items[seen.matching()[seen.offset + k]],
                            name_width(seen),
                        ),
                        cols,
                    ),
                    k == at,
                )
        }),
{
    let seen = picker.scrolled(height);
    assert(seen.lowered() =~= picker.lowered());
    assert(seen.matching() == picker.matching());
}

/// A status still to come and an empty one never look alike.
pub proof fn law_a_pending_status_says_so(item: ItemModel, width: nat)
    ensures
        row_text((ItemModel { note: None, ..item }), width) == row_text(
            (ItemModel { note: Some(PENDING@), ..item }),
            width,
        ),
        row_text((ItemModel { note: None, ..item }), width) != row_text(
            (ItemModel { note: Some(Seq::empty()), ..item }),
            width,
        ),
{
    reveal_strlit("...");
    let pending = row_text((ItemModel { note: None, ..item }), width);
    let empty = row_text((ItemModel { note: Some(Seq::empty()), ..item }), width);
    assert(pending.len() == empty.len() + 3);
}

/// Candidates are drawn below the header and above the tally.
pub proof fn law_candidates_leave_the_tally_alone(len: nat, rows: u16, i: int)
    requires
        0 <= i < clean_rows(len, rows),
    ensures
        2 < 3 + i < from_bottom(rows, 2),
        from_bottom(rows, 2) < from_bottom(rows, 1) < rows,
        i < len,
{
}

} // verus!
