//! What the help lines say, and what is left of them on a narrow terminal.

use vstd::prelude::*;

use crate::tui::draw::draw_hints;
use crate::tui::draw_laws::law_a_help_line_is_as_wide_as_it_measures;
use crate::tui::hints::{
    clean_hints, first_optional, hint_models, hints_filtering, hints_for, hints_idle,
    hints_that_fit, hints_width, measurable, Hint, HintModel,
};
use crate::tui::picker::Picker;
use crate::tui::screen::{law_printing_goes_piece_by_piece, printed, Canvas};

verus! {

/// An entry with one key, that is kept on any terminal.
pub open spec fn shows(hint: Hint, key: Seq<char>, label: Seq<char>) -> bool {
    hint.keys@.len() == 1 && hint.keys@[0]@ == key && hint.label@ == label && !hint.optional
}

/// The entry that a narrow terminal drops.
pub open spec fn shows_move(hint: Hint) -> bool {
    hint.keys@.len() == 1 && hint.keys@[0]@ == "up/down"@ && hint.label@ == "move"@
        && hint.optional
}

proof fn lemma_entry(hints: Vec<Hint>, i: int)
    requires
        0 <= i < hints@.len(),
    ensures
        hint_models(hints@)[i].keys.len() == hints@[i].keys@.len(),
        hint_models(hints@)[i].label == hints@[i].label@,
        hint_models(hints@)[i].optional == hints@[i].optional,
        forall|k: int|
            0 <= k < hints@[i].keys@.len() ==> hint_models(hints@)[i].keys[k] == (
            #[trigger] hints@[i].keys@[k])@,
{
    assert(hint_models(hints@)[i] == hints@[i]@);
}

/// With nothing typed the help names Backspace beside Ctrl-D for deleting.
pub proof fn law_the_help_with_nothing_typed(r: Vec<Hint>)
    requires
        call_ensures(hints_idle, (), r),
    ensures
        r@.len() == 4,
        shows_move(r@[0]),
        shows(r@[1], "enter"@, "cd"@),
        r@[2].keys@.len() == 2,
        r@[2].keys@[0]@ == "ctrl-d"@,
        r@[2].keys@[1]@ == "backspace"@,
        r@[2].label@ == "delete"@,
        !r@[2].optional,
        shows(r@[3], "esc"@, "cancel"@),
{
    assert(hint_models(r@).len() == r@.len());
    lemma_entry(r, 0);
    lemma_entry(r, 1);
    lemma_entry(r, 2);
    lemma_entry(r, 3);
}

/// While something is typed, deleting is Ctrl-D alone and Backspace erases.
pub proof fn law_the_help_while_typing(r: Vec<Hint>)
    requires
        call_ensures(hints_filtering, (), r),
    ensures
        r@.len() == 5,
        shows_move(r@[0]),
        shows(r@[1], "enter"@, "cd"@),
        shows(r@[2], "ctrl-d"@, "delete"@),
        shows(r@[3], "backspace"@, "erase"@),
        shows(r@[4], "esc"@, "cancel"@),
{
    assert(hint_models(r@).len() == r@.len());
    lemma_entry(r, 0);
    lemma_entry(r, 1);
    lemma_entry(r, 2);
    lemma_entry(r, 3);
    lemma_entry(r, 4);
}

/// The clean screen names its four keys, and drops none of them.
pub proof fn law_the_help_of_the_clean_screen(r: Vec<Hint>)
    requires
        call_ensures(clean_hints, (), r),
    ensures
        r@.len() == 4,
        shows(r@[0], "up/down"@, "move"@),
        shows(r@[1], "space"@, "toggle"@),
        shows(r@[2], "enter"@, "remove"@),
        shows(r@[3], "esc"@, "cancel"@),
{
    assert(hint_models(r@).len() == r@.len());
    lemma_entry(r, 0);
    lemma_entry(r, 1);
    lemma_entry(r, 2);
    lemma_entry(r, 3);
}

/// Which help is shown depends on whether anything is typed, and on nothing
/// else.
pub proof fn law_which_help_is_shown(
    picker: &Picker,
    r: Vec<Hint>,
    idle: Vec<Hint>,
    typing: Vec<Hint>,
)
    requires
        call_ensures(hints_for, (picker,), r),
        call_ensures(hints_idle, (), idle),
        call_ensures(hints_filtering, (), typing),
    ensures
        picker.filter@.len() == 0 ==> hint_models(r@) == hint_models(idle@),
        picker.filter@.len() > 0 ==> hint_models(r@) == hint_models(typing@),
{
}

/// The measured width of a help line is how many characters it shows when it is
/// drawn.
pub proof fn law_help_is_measured_as_it_is_drawn(
    out: &mut Canvas,
    hints: &Vec<Hint>,
    width: usize,
    r: (),
)
    requires
        measurable(hint_models(hints@)),
        call_ensures(hints_width, (hints,), width),
        call_ensures(draw_hints, (out, hints), r),
    ensures
        printed(final(out)@).len() == printed(old(out)@).len() + width,
{
    law_a_help_line_is_as_wide_as_it_measures(hint_models(hints@));
    law_printing_goes_piece_by_piece(
        old(out)@,
        crate::tui::draw::hints_ops(hint_models(hints@)),
    );
}

proof fn lemma_first(hints: Seq<HintModel>, k: int)
    requires
        0 <= k <= hints.len(),
        k < hints.len() ==> hints[k].optional,
        forall|i: int| 0 <= i < k ==> !(#[trigger] hints[i]).optional,
    ensures
        first_optional(hints) == k,
    decreases k,
{
    if k > 0 {
        assert(!hints[0].optional);
        let rest = hints.drop_first();
        assert forall|i: int| 0 <= i < k - 1 implies !(#[trigger] rest[i]).optional by {
            assert(rest[i] == hints[i + 1]);
        }
        lemma_first(rest, k - 1);
    }
}

/// A line that fits, or that holds nothing optional, is shown whole. From any
/// other the first optional entry is dropped, and what is left is fitted again.
pub proof fn law_how_a_help_line_is_narrowed(
    hints: Vec<Hint>,
    shorter: Vec<Hint>,
    width: usize,
    measured: usize,
    r: Vec<Hint>,
    s: Vec<Hint>,
    k: int,
)
    requires
        call_ensures(hints_that_fit, (hints, width), r),
        call_ensures(hints_that_fit, (shorter, width), s),
        call_ensures(hints_width, (&hints,), measured),
        0 <= k <= hints@.len(),
        k < hints@.len() ==> hints@[k].optional,
        forall|i: int| 0 <= i < k ==> !(#[trigger] hints@[i]).optional,
        k < hints@.len() ==> hint_models(shorter@) == hint_models(hints@).remove(k),
    ensures
        measured <= width || k == hints@.len() ==> hint_models(r@) == hint_models(hints@),
        measured > width && k < hints@.len() ==> hint_models(r@) == hint_models(s@),
{
    let all = hint_models(hints@);
    assert(all.len() == hints@.len());
    if k < all.len() {
        assert(all[k] == hints@[k]@);
    }
    assert forall|i: int| 0 <= i < k implies !(#[trigger] all[i]).optional by {
        assert(all[i] == hints@[i]@);
    }
    lemma_first(all, k);
}

} // verus!
