//! What each operation does to the list, and what the list does on each key.

use vstd::prelude::*;

use crate::path::lossy;
use crate::text::{lowercase, occurs};
use crate::tui::keys::{key_action, Action, KeyEvent, KeyEventKind};
use crate::tui::pick::{pick, Event, Next, Picking, Wait};
use crate::tui::picker::{
    indices, item_models, law_kept, law_matching_rows, pair_readings, sift, step, take_key, Backspace, Item, Outcome,
    Picker, PickerModel, Step,
};
use crate::tui::status::Arrival;

verus! {

/// Everything but the cursor is as it was.
pub open spec fn only_the_cursor(before: PickerModel, after: PickerModel) -> bool {
    after.items == before.items && after.filter == before.filter && after.offset == before.offset
}

/// The cursor is where it was, as far as the list still reaches.
pub open spec fn cursor_kept(before: PickerModel, after: PickerModel) -> bool {
    let len = after.matching().len() as int;
    after.cursor == if len == 0 {
        0
    } else if before.cursor < len {
        before.cursor
    } else {
        len - 1
    }
}

/// A new picker shows its rows from the first, with nothing typed.
pub proof fn law_a_new_picker(items: Vec<Item>, r: Picker)
    requires
        call_ensures(Picker::new, (items,), r),
    ensures
        item_models(r.items@) == item_models(items@),
        r.filter@.len() == 0,
        r.cursor == 0,
        r.offset == 0,
        !r.erasing,
{
}

/// A row is listed exactly when nothing is typed or what is typed occurs in its
/// name or in its path, both in lower case; each once, and in order.
pub proof fn law_what_is_listed(picker: &Picker, r: Vec<usize>)
    requires
        call_ensures(Picker::matches, (picker,), r),
    ensures
        r@.len() == picker@.matching().len(),
        forall|k: int| 0 <= k < r@.len() ==> #[trigger] r@[k] < picker.items@.len(),
        forall|j: int, k: int| 0 <= j < k < r@.len() ==> #[trigger] r@[j] < #[trigger] r@[k],
        forall|i: usize|
            i < picker.items@.len() ==> (#[trigger] r@.contains(i) <==> picker.filter@.len() == 0
                || occurs(lowercase(picker.filter@), lowercase(picker.items@[i as int].name@))
                || occurs(
                lowercase(picker.filter@),
                lowercase(lossy(picker.items@[i as int].path.bytes@)),
            )),
{
    let all = indices(r@);
    let rows = picker@.matching();
    law_matching_rows(picker@);
    law_kept(picker@.lowered(), lowercase(picker.filter@), picker@.items.len());
    assert(all.len() == r@.len());
    assert forall|j: int, k: int| 0 <= j < k < r@.len() implies #[trigger] r@[j]
        < #[trigger] r@[k] by {
        assert(all[j] == r@[j]);
        assert(all[k] == r@[k]);
        assert(rows[j] < rows[k]);
    }
    assert forall|i: usize| i < picker.items@.len() implies (#[trigger] r@.contains(i)
        <==> picker.filter@.len() == 0 || occurs(
        lowercase(picker.filter@),
        lowercase(picker.items@[i as int].name@),
    ) || occurs(
        lowercase(picker.filter@),
        lowercase(lossy(picker.items@[i as int].path.bytes@)),
    )) by {
        assert(picker@.items[i as int] == picker.items@[i as int]@);
        if picker.filter@.len() == 0 {
            assert(all[i as int] == i);
            assert(r@[i as int] == i);
        } else {
            assert(r@.contains(i) <==> rows.contains(i as int)) by {
                if r@.contains(i) {
                    let k = choose|k: int| 0 <= k < r@.len() && r@[k] == i;
                    assert(all[k] == i);
                    assert(rows[k] == i);
                }
                if rows.contains(i as int) {
                    let k = choose|k: int| 0 <= k < rows.len() && rows[k] == i;
                    assert(all[k] == r@[k]);
                    assert(r@[k] == i);
                }
            }
            crate::tui::picker::law_filter_matches_name_or_path(picker@, i as int);
        }
    }
}

/// The row under the cursor is that of the listed rows, and there is none where
/// the list does not reach the cursor.
pub proof fn law_which_row_is_selected(picker: &Picker, listed: Vec<usize>, r: Option<&Item>)
    requires
        call_ensures(Picker::matches, (picker,), listed),
        call_ensures(Picker::selected, (picker,), r),
    ensures
        r is Some <==> picker.cursor < listed@.len(),
        r matches Some(item) ==> item@ == picker.items@[listed@[picker.cursor as int] as int]@,
{
    assert(indices(listed@).len() == listed@.len());
    if picker.cursor < listed@.len() {
        assert(indices(listed@)[picker.cursor as int] == listed@[picker.cursor as int]);
    }
}

/// Down is one row further, and from the last to the first.
pub proof fn law_down(picker: &mut Picker, r: ())
    requires
        call_ensures(Picker::move_down, (picker,), r),
    ensures
        only_the_cursor(old(picker)@, final(picker)@),
        final(picker).erasing == old(picker).erasing,
        ({
            let len = old(picker)@.matching().len();
            &&& len == 0 ==> final(picker).cursor == old(picker).cursor
            &&& len > 0 ==> final(picker).cursor == (old(picker).cursor + 1) % (len as int)
            &&& old(picker).cursor < len ==> final(picker).cursor == if old(picker).cursor + 1
                == len {
                0
            } else {
                old(picker).cursor + 1
            }
        }),
{
    let len = old(picker)@.matching().len() as int;
    let at = old(picker).cursor as int;
    if 0 <= at < len {
        assert((at + 1) % len == if at + 1 == len {
            0
        } else {
            at + 1
        }) by (nonlinear_arith)
            requires
                0 <= at < len,
        ;
    }
}

/// Up is one row back, and from the first to the last.
pub proof fn law_up(picker: &mut Picker, r: ())
    requires
        call_ensures(Picker::move_up, (picker,), r),
    ensures
        only_the_cursor(old(picker)@, final(picker)@),
        final(picker).erasing == old(picker).erasing,
        ({
            let len = old(picker)@.matching().len();
            &&& len == 0 ==> final(picker).cursor == old(picker).cursor
            &&& len > 0 ==> final(picker).cursor == (old(picker).cursor + len - 1) % (len as int)
            &&& old(picker).cursor < len ==> final(picker).cursor == if old(picker).cursor == 0 {
                len - 1
            } else {
                old(picker).cursor - 1
            }
        }),
{
    let len = old(picker)@.matching().len() as int;
    let at = old(picker).cursor as int;
    if 0 <= at < len {
        assert((at + len - 1) % len == if at == 0 {
            len - 1
        } else {
            at - 1
        }) by (nonlinear_arith)
            requires
                0 <= at < len,
        ;
    }
}

proof fn lemma_same_rows(before: PickerModel, after: PickerModel)
    requires
        after.items == before.items,
        after.filter == before.filter,
    ensures
        after.matching() == before.matching(),
{
    assert(after.lowered() =~= before.lowered());
}

/// Clamping moves the cursor only where the list no longer reaches it, and then
/// to the last row.
pub proof fn law_clamping(picker: &mut Picker, r: ())
    requires
        call_ensures(Picker::clamp, (picker,), r),
    ensures
        only_the_cursor(old(picker)@, final(picker)@),
        final(picker).erasing == old(picker).erasing,
        cursor_kept(old(picker)@, final(picker)@),
{
    lemma_same_rows(old(picker)@, final(picker)@);
}

/// A typed character goes behind what is typed.
pub proof fn law_typing(picker: &mut Picker, c: char, r: ())
    requires
        call_ensures(Picker::push_filter, (picker, c), r),
    ensures
        final(picker).filter@ == old(picker).filter@ + seq![c],
        final(picker)@.items == old(picker)@.items,
        final(picker).offset == old(picker).offset,
        final(picker).erasing == old(picker).erasing,
        cursor_kept(old(picker)@, final(picker)@),
{
    let filter = old(picker).filter@.push(c);
    assert(filter =~= old(picker).filter@ + seq![c]);
    lemma_same_rows(old(picker)@.with_filter(filter), final(picker)@);
}

/// Erasing takes the last character away, if there is one.
pub proof fn law_erasing(picker: &mut Picker, r: ())
    requires
        call_ensures(Picker::pop_filter, (picker,), r),
    ensures
        old(picker).filter@.len() == 0 ==> final(picker).filter@.len() == 0,
        old(picker).filter@.len() > 0 ==> final(picker).filter@ + seq![
            old(picker).filter@.last(),
        ] == old(picker).filter@,
        final(picker)@.items == old(picker)@.items,
        final(picker).offset == old(picker).offset,
        final(picker).erasing == old(picker).erasing,
        cursor_kept(old(picker)@, final(picker)@),
{
    lemma_same_rows(old(picker)@.with_filter(final(picker).filter@), final(picker)@);
    if old(picker).filter@.len() > 0 {
        assert(final(picker).filter@ + seq![old(picker).filter@.last()] =~= old(picker).filter@);
    }
}

/// Backspace erases while there is something to erase, is swallowed once right
/// after that, and asks to delete otherwise.
pub proof fn law_backspace(picker: &mut Picker, r: Backspace)
    requires
        call_ensures(Picker::backspace, (picker,), r),
    ensures
        r == Backspace::ErasedFilter <==> old(picker).filter@.len() > 0,
        r == Backspace::Absorbed <==> old(picker).filter@.len() == 0 && old(picker).erasing,
        r == Backspace::Delete <==> old(picker).filter@.len() == 0 && !old(picker).erasing,
        final(picker).erasing <==> old(picker).filter@.len() > 0,
        final(picker)@.items == old(picker)@.items,
        final(picker).offset == old(picker).offset,
        old(picker).filter@.len() > 0 ==> final(picker).filter@ + seq![
            old(picker).filter@.last(),
        ] == old(picker).filter@ && cursor_kept(old(picker)@, final(picker)@),
        old(picker).filter@.len() == 0 ==> final(picker).filter@.len() == 0 && final(picker).cursor
            == old(picker).cursor,
{
    lemma_same_rows(old(picker)@.with_filter(final(picker).filter@), final(picker)@);
    if old(picker).filter@.len() > 0 {
        assert(final(picker).filter@ + seq![old(picker).filter@.last()] =~= old(picker).filter@);
    }
}

/// Any other key ends the streak, and that is all.
pub proof fn law_another_key(picker: &mut Picker, r: ())
    requires
        call_ensures(Picker::note_other_key, (picker,), r),
    ensures
        only_the_cursor(old(picker)@, final(picker)@),
        final(picker).cursor == old(picker).cursor,
        !final(picker).erasing,
{
}

/// Scrolling moves the window by as little as brings the cursor into it, and
/// not at all where it is in it already or there is no window.
pub proof fn law_scrolling(picker: &mut Picker, height: usize, r: ())
    requires
        call_ensures(Picker::scroll_into_view, (picker, height), r),
    ensures
        final(picker)@.items == old(picker)@.items,
        final(picker).filter@ == old(picker).filter@,
        final(picker).cursor == old(picker).cursor,
        final(picker).erasing == old(picker).erasing,
        final(picker).offset == if height == 0 {
            old(picker).offset as int
        } else if old(picker).cursor < old(picker).offset {
            old(picker).cursor as int
        } else if old(picker).cursor >= old(picker).offset + height {
            old(picker).cursor + 1 - height
        } else {
            old(picker).offset as int
        },
{
}

/// Esc leaves without a choice, and Enter with the selected row's path or not at
/// all. Neither changes the list.
pub proof fn law_leaving(
    picker: &mut Picker,
    action: Action,
    r: Step,
    selected: Option<&Item>,
)
    requires
        action == Action::Cancel || action == Action::Confirm,
        call_ensures(step, (picker, action), r),
        call_ensures(Picker::selected, (old(picker),), selected),
    ensures
        only_the_cursor(old(picker)@, final(picker)@),
        final(picker).cursor == old(picker).cursor,
        !final(picker).erasing,
        action == Action::Cancel ==> (r matches Step::Done(outcome) && outcome is Cancelled),
        action == Action::Confirm ==> match selected {
            Some(item) => r matches Step::Done(Outcome::Selected(path)) && path.bytes@
                == item.path.bytes@,
            None => r is Stay,
        },
{
    let rested = PickerModel { erasing: false, ..old(picker)@ };
    lemma_same_rows(old(picker)@, rested);
}

/// The arrows move the cursor, a character is typed, and a key that is not bound
/// does nothing; after all of them the list stays open.
pub proof fn law_staying(picker: &mut Picker, action: Action, r: Step)
    requires
        action == Action::Down || action == Action::Up || action is Insert || action
            == Action::Ignore,
        call_ensures(step, (picker, action), r),
        action == Action::Down || action == Action::Up ==> old(picker)@.matching().len() == 0 || old(
            picker,
        ).cursor < old(picker)@.matching().len(),
    ensures
        r is Stay,
        !final(picker).erasing,
        final(picker)@.items == old(picker)@.items,
        final(picker).offset == old(picker).offset,
        ({
            let len = old(picker)@.matching().len();
            let at = old(picker).cursor;
            match action {
                Action::Insert(c) => final(picker).filter@ == old(picker).filter@ + seq![c]
                    && cursor_kept(old(picker)@, final(picker)@),
                Action::Down if len > 0 => final(picker).filter@ == old(picker).filter@
                    && final(picker).cursor == if at + 1 == len {
                    0
                } else {
                    at + 1
                },
                Action::Up if len > 0 => final(picker).filter@ == old(picker).filter@
                    && final(picker).cursor == if at == 0 {
                    len - 1
                } else {
                    at - 1
                },
                _ => final(picker).filter@ == old(picker).filter@ && final(picker).cursor == at,
            }
        }),
{
    let rested = PickerModel { erasing: false, ..old(picker)@ };
    lemma_same_rows(old(picker)@, rested);
    let len = old(picker)@.matching().len() as int;
    let at = old(picker).cursor as int;
    match action {
        Action::Insert(c) => {
            let filter = old(picker).filter@.push(c);
            assert(filter =~= old(picker).filter@ + seq![c]);
            lemma_same_rows(rested.with_filter(filter), final(picker)@);
        },
        _ => {
            if 0 <= at < len {
                assert((at + 1) % len == if at + 1 == len {
                    0
                } else {
                    at + 1
                }) by (nonlinear_arith)
                    requires
                        0 <= at < len,
                ;
                assert((at + len - 1) % len == if at == 0 {
                    len - 1
                } else {
                    at - 1
                }) by (nonlinear_arith)
                    requires
                        0 <= at < len,
                ;
            }
        },
    }
}

/// The delete keys always open the dialog; Backspace does only with nothing
/// typed and nothing just erased, and erases one character where one is typed.
pub proof fn law_deleting(picker: &mut Picker, action: Action, r: Step)
    requires
        action == Action::Delete || action == Action::Backspace,
        call_ensures(step, (picker, action), r),
    ensures
        r is Delete || r is Stay,
        r is Delete <==> action == Action::Delete || old(picker).filter@.len() == 0 && !old(
            picker,
        ).erasing,
        final(picker).erasing <==> action == Action::Backspace && old(picker).filter@.len() > 0,
        final(picker)@.items == old(picker)@.items,
        final(picker).offset == old(picker).offset,
        if action == Action::Backspace && old(picker).filter@.len() > 0 {
            final(picker).filter@ + seq![old(picker).filter@.last()] == old(picker).filter@
                && cursor_kept(old(picker)@, final(picker)@)
        } else {
            final(picker).filter@ == old(picker).filter@ && final(picker).cursor == old(
                picker,
            ).cursor
        },
{
    lemma_same_rows(old(picker)@.with_filter(final(picker).filter@), final(picker)@);
    if old(picker).filter@.len() > 0 {
        assert(old(picker).filter@.drop_last() + seq![old(picker).filter@.last()]
            =~= old(picker).filter@);
    }
}

/// A press does what its action does and takes the message away; anything else
/// about a key does nothing.
pub proof fn law_a_key_while_the_list_is_shown(
    picker: &mut Picker,
    message: &mut Option<String>,
    key: &KeyEvent,
    r: Step,
    action: Action,
)
    requires
        call_ensures(take_key, (picker, message, key), r),
        call_ensures(key_action, (key,), action),
    ensures
        key.kind == KeyEventKind::Press ==> *final(message) is None && (final(picker)@, r@)
            == crate::tui::picker::stepped(old(picker)@, action),
        key.kind != KeyEventKind::Press ==> *final(message) == *old(message) && final(picker)@
            == old(picker)@ && r is Stay,
{
}

/// A picker opens on its rows, says nothing, and waits for their status.
pub proof fn law_how_the_picker_opens(items: Vec<Item>, r: Picking)
    requires
        call_ensures(Picking::new, (items,), r),
    ensures
        item_models(r.picker.items@) == item_models(items@),
        r.picker.filter@.len() == 0,
        r.picker.cursor == 0,
        r.picker.offset == 0,
        !r.picker.erasing,
        r.message is None,
        r.status.waiting,
{
    assert(r@.message is None);
}

/// Status is looked for exactly as long as it has not come.
pub proof fn law_what_is_waited_for(open: &Picking, r: Wait)
    requires
        call_ensures(Picking::next_key, (open,), r),
    ensures
        r == Wait::KeyOrStatus <==> open.status.waiting,
        r == Wait::Key <==> !open.status.waiting,
{
}

/// After a deletion its line is shown, and the status is waited for again.
pub proof fn law_after_a_deletion(open: &mut Picking, line: Option<String>, r: ())
    requires
        call_ensures(Picking::deleted, (open, line), r),
    ensures
        final(open).picker@ == old(open).picker@,
        final(open).status.waiting,
        line is Some <==> final(open).message is Some,
        line matches Some(text) ==> final(open).message->0@ == text@,
{
    assert(final(open)@.message == crate::git::reading(line));
}

/// A key press while the picker is open does what it does to the list, takes
/// the message away, and closes the picker or opens the dialog where the list
/// asks for it.
pub proof fn law_a_press_while_the_picker_is_open(
    open: &mut Picking,
    key: KeyEvent,
    r: Next,
    action: Action,
)
    requires
        key.kind == KeyEventKind::Press,
        call_ensures(pick, (open, &Event::Key(key)), r),
        call_ensures(key_action, (&key,), action),
    ensures
        final(open).message is None,
        final(open).status.waiting == old(open).status.waiting,
        ({
            let (list, then) = crate::tui::picker::stepped(old(open).picker@, action);
            &&& final(open).picker@ == list
            &&& match then {
                crate::tui::picker::StepModel::Stay => r is Redraw,
                crate::tui::picker::StepModel::Delete => r is Delete,
                crate::tui::picker::StepModel::Done(Some(chosen)) => r matches Next::Finish(
                    Outcome::Selected(path),
                ) && path.bytes@ == chosen,
                crate::tui::picker::StepModel::Done(None) => r matches Next::Finish(outcome)
                    && outcome is Cancelled,
            }
        }),
{
    assert(final(open)@.message is None);
}

/// Anything else the terminal reports has the list drawn again, and changes
/// nothing.
pub proof fn law_other_events_only_redraw(open: &mut Picking, event: Event, r: Next)
    requires
        event is Terminal || (event matches Event::Key(key) && key.kind != KeyEventKind::Press),
        call_ensures(pick, (open, &event), r),
    ensures
        r is Redraw,
        final(open)@ == old(open)@,
{
}

/// Notes that are still waited for are written down and shown, and nothing more
/// is waited for then; workers that are gone are not waited for either; and
/// where nothing has come, nothing changes.
pub proof fn law_what_the_workers_bring(open: &mut Picking, arrival: Arrival, r: Next)
    requires
        call_ensures(pick, (open, &Event::Status(arrival)), r),
    ensures
        final(open)@.message == old(open)@.message,
        final(open)@.picker.filter == old(open)@.picker.filter,
        final(open)@.picker.cursor == old(open)@.picker.cursor,
        final(open)@.picker.offset == old(open)@.picker.offset,
        final(open)@.picker.erasing == old(open)@.picker.erasing,
        final(open).status.waiting <==> old(open).status.waiting && arrival is Empty,
        r is Redraw <==> old(open).status.waiting && arrival is Notes,
        r is Wait <==> !(old(open).status.waiting && arrival is Notes),
        !(old(open).status.waiting && arrival is Notes) ==> final(open)@.picker.items == old(
            open,
        )@.picker.items,
        old(open).status.waiting && arrival is Notes ==> final(open)@.picker.items
            == crate::tui::status::noted(
            old(open)@.picker.items,
            crate::tui::status::note_readings(arrival->Notes_0@),
        ),
{
}

/// Sifting keeps a row exactly when one of its two texts holds the needle, and
/// keeps the order.
pub proof fn law_sifting(rows: &Vec<(String, String)>, needle: &str, r: Vec<usize>)
    requires
        call_ensures(sift, (rows, needle), r),
    ensures
        forall|k: int| 0 <= k < r@.len() ==> #[trigger] r@[k] < rows@.len(),
        forall|j: int, k: int| 0 <= j < k < r@.len() ==> #[trigger] r@[j] < #[trigger] r@[k],
        forall|i: usize|
            i < rows@.len() ==> (#[trigger] r@.contains(i) <==> occurs(
                needle@,
                rows@[i as int].0@,
            ) || occurs(needle@, rows@[i as int].1@)),
{
    let texts = pair_readings(rows@);
    let all = indices(r@);
    law_kept(texts, needle@, rows@.len());
    assert(all.len() == r@.len());
    assert forall|k: int| 0 <= k < r@.len() implies #[trigger] r@[k] < rows@.len() by {
        assert(all[k] == r@[k]);
    }
    assert forall|j: int, k: int| 0 <= j < k < r@.len() implies #[trigger] r@[j]
        < #[trigger] r@[k] by {
        assert(all[j] == r@[j]);
        assert(all[k] == r@[k]);
    }
    assert forall|i: usize| i < rows@.len() implies (#[trigger] r@.contains(i) <==> occurs(
        needle@,
        rows@[i as int].0@,
    ) || occurs(needle@, rows@[i as int].1@)) by {
        assert(texts[i as int] == (rows@[i as int].0@, rows@[i as int].1@));
        if r@.contains(i) {
            let k = choose|k: int| 0 <= k < r@.len() && r@[k] == i;
            assert(all[k] == i);
            assert(all.contains(i as int));
        }
        if all.contains(i as int) {
            let k = choose|k: int| 0 <= k < all.len() && all[k] == i;
            assert(r@[k] == i);
        }
    }
}

} // verus!
