//! Which key does what, on each of the screens.

use vstd::prelude::*;

use crate::commands::clean::{candidate_models, Candidate, State};
use crate::tui::clean_screen::{
    choose_to_clean, chosen, clean_step, law_chosen_are_the_ticked, preselection, ticked_indices,
    Choice, Choosing, CleanStep,
};
use crate::tui::keys::{key_action, reply, Action, KeyCode, KeyEvent, KeyEventKind, Reply};
use crate::tui::picker::indices;

verus! {

/// The control key is held down.
pub open spec fn control(key: KeyEvent) -> bool {
    key.modifiers & 2 == 2
}

/// The key types this character while control is held down.
pub open spec fn ctrl(key: KeyEvent, c: char) -> bool {
    key.code == KeyCode::Char(c) && control(key)
}

/// A new key event is a press of that key.
pub proof fn law_a_new_event_is_a_press(code: KeyCode, modifiers: u8, r: KeyEvent)
    requires
        call_ensures(KeyEvent::new, (code, modifiers), r),
    ensures
        r.code == code,
        r.modifiers == modifiers,
        r.kind == KeyEventKind::Press,
{
}

/// Each action of the picker has its keys, and no others.
pub proof fn law_the_keys_of_the_picker(key: &KeyEvent, r: Action)
    requires
        call_ensures(key_action, (key,), r),
    ensures
        r == Action::Confirm <==> key.code == KeyCode::Enter,
        r == Action::Cancel <==> key.code == KeyCode::Esc || ctrl(*key, 'c') || ctrl(*key, 'g'),
        r == Action::Up <==> key.code == KeyCode::Up || ctrl(*key, 'p'),
        r == Action::Down <==> key.code == KeyCode::Down || ctrl(*key, 'n'),
        r == Action::Delete <==> key.code == KeyCode::Delete || ctrl(*key, 'd'),
        r == Action::Backspace <==> key.code == KeyCode::Backspace || ctrl(*key, 'h'),
        r is Insert <==> key.code is Char && !control(*key),
        r matches Action::Insert(c) ==> key.code == KeyCode::Char(c),
        r == Action::Ignore <==> key.code is F || key.code is Other || (key.code is Char && control(
            *key,
        ) && !ctrl(*key, 'c') && !ctrl(*key, 'g') && !ctrl(*key, 'p') && !ctrl(*key, 'n') && !ctrl(
            *key,
            'd',
        ) && !ctrl(*key, 'h')),
{
}

/// Each answer of the dialog has its keys, and no others; the branch goes only
/// where there is one; and nothing but a press answers.
pub proof fn law_the_keys_of_the_dialog(key: &KeyEvent, has_branch: bool, r: Option<Reply>)
    requires
        call_ensures(reply, (key, has_branch), r),
    ensures
        ({
            let press = key.kind == KeyEventKind::Press;
            let yes = key.code == KeyCode::Char('y') || key.code == KeyCode::Char('Y');
            let branch = key.code == KeyCode::Char('b') || key.code == KeyCode::Char('B');
            let no = key.code == KeyCode::Char('n') || key.code == KeyCode::Char('N') || key.code
                == KeyCode::Esc || ctrl(*key, 'c');
            &&& r == Some(Reply::Remove { with_branch: false }) <==> press && yes
            &&& r == Some(Reply::Remove { with_branch: true }) <==> press && branch && has_branch
            &&& r == Some(Reply::Cancel) <==> press && no
            &&& r is None <==> !press || !(yes || branch && has_branch || no)
        }),
{
}

/// On the clean screen space toggles the box under the cursor and no other, the
/// arrows move the cursor by one and wrap, Enter accepts, Esc cancels, and no
/// other key, and nothing but a press, does anything.
pub proof fn law_the_keys_of_the_clean_screen(
    key: &KeyEvent,
    ticked: &mut Vec<bool>,
    at: &mut usize,
    r: CleanStep,
)
    requires
        call_ensures(clean_step, (key, ticked, at), r),
        *old(at) < old(ticked)@.len(),
    ensures
        ({
            let press = key.kind == KeyEventKind::Press;
            let leave = press && (key.code == KeyCode::Esc || ctrl(*key, 'c') || ctrl(*key, 'g'));
            let down = press && (key.code == KeyCode::Down || ctrl(*key, 'n'));
            let up = press && (key.code == KeyCode::Up || ctrl(*key, 'p'));
            let space = press && key.code == KeyCode::Char(' ');
            let len = old(ticked)@.len();
            &&& r == CleanStep::Accept <==> press && key.code == KeyCode::Enter
            &&& r == CleanStep::Cancel <==> leave
            &&& final(ticked)@.len() == len
            &&& forall|i: int|
                0 <= i < len ==> #[trigger] final(ticked)@[i] == (old(ticked)@[i] != (space && i
                    == *old(at)))
            &&& *final(at) == if down {
                if *old(at) + 1 < len {
                    *old(at) + 1
                } else {
                    0
                }
            } else if up {
                if *old(at) > 0 {
                    *old(at) - 1
                } else {
                    len - 1
                }
            } else {
                *old(at) as int
            }
        }),
{
}

/// What is chosen is what is ticked, from the first to the last.
pub proof fn law_what_is_ticked_is_chosen(ticked: &Vec<bool>, r: Vec<usize>)
    requires
        call_ensures(chosen, (ticked,), r),
    ensures
        forall|k: int| 0 <= k < r@.len() ==> #[trigger] r@[k] < ticked@.len() && ticked@[r@[k] as int],
        forall|j: int, k: int| 0 <= j < k < r@.len() ==> #[trigger] r@[j] < #[trigger] r@[k],
        forall|i: usize| i < ticked@.len() && ticked@[i as int] ==> #[trigger] r@.contains(i),
{
    law_chosen_are_the_ticked(ticked@, ticked@.len());
    let all = indices(r@);
    assert(all.len() == r@.len());
    assert forall|k: int| 0 <= k < r@.len() implies #[trigger] r@[k] < ticked@.len()
        && ticked@[r@[k] as int] by {
        assert(all[k] == r@[k]);
    }
    assert forall|j: int, k: int| 0 <= j < k < r@.len() implies #[trigger] r@[j]
        < #[trigger] r@[k] by {
        assert(all[j] == r@[j]);
        assert(all[k] == r@[k]);
    }
    assert forall|i: usize| i < ticked@.len() && ticked@[i as int] implies #[trigger] r@.contains(
        i,
    ) by {
        assert(ticked_indices(ticked@).contains(i as int));
        let k = choose|k: int| 0 <= k < all.len() && all[k] == i;
        assert(r@[k] == i);
    }
}

/// The screen opens at its first row, with exactly the finished work ticked.
pub proof fn law_how_the_clean_screen_opens(
    list: &Vec<Candidate>,
    boxes: Vec<bool>,
    screen: Choosing,
)
    requires
        call_ensures(preselection, (list,), boxes),
        call_ensures(Choosing::new, (list,), screen),
    ensures
        screen.cursor_at == 0,
        boxes@.len() == list@.len(),
        screen.ticked@ == boxes@,
        forall|i: int|
            0 <= i < list@.len() ==> (#[trigger] boxes@[i] <==> list@[i].state == State::Done),
{
    assert forall|i: int| 0 <= i < list@.len() implies (#[trigger] boxes@[i] <==> list@[i].state
        == State::Done) by {
        assert(candidate_models(list@)[i] == list@[i]@);
    }
}

/// A key while the screen is open does what it does there; accepting hands over
/// what is ticked then, and cancelling hands over nothing.
pub proof fn law_what_the_clean_screen_hands_over(
    screen: &mut Choosing,
    key: &KeyEvent,
    r: Choice,
    list: Vec<usize>,
)
    requires
        call_ensures(choose_to_clean, (screen, key), r),
        old(screen).cursor_at < old(screen).ticked@.len(),
        call_ensures(chosen, (&final(screen).ticked,), list),
    ensures
        ({
            let press = key.kind == KeyEventKind::Press;
            let leave = press && (key.code == KeyCode::Esc || ctrl(*key, 'c') || ctrl(*key, 'g'));
            let enter = press && key.code == KeyCode::Enter;
            let space = press && key.code == KeyCode::Char(' ');
            let down = press && (key.code == KeyCode::Down || ctrl(*key, 'n'));
            let up = press && (key.code == KeyCode::Up || ctrl(*key, 'p'));
            let at = old(screen).cursor_at;
            let len = old(screen).ticked@.len();
            &&& r is Cancelled <==> leave
            &&& r is Accepted <==> enter
            &&& r matches Choice::Accepted(taken) ==> indices(taken@) == indices(list@)
            &&& final(screen).cursor_at == if down {
                if at + 1 < len {
                    at + 1
                } else {
                    0
                }
            } else if up {
                if at > 0 {
                    at - 1
                } else {
                    len - 1
                }
            } else {
                at as int
            }
            &&& final(screen).ticked@.len() == old(screen).ticked@.len()
            &&& forall|i: int|
                0 <= i < old(screen).ticked@.len() ==> #[trigger] final(screen).ticked@[i] == (old(
                    screen,
                ).ticked@[i] != (space && i == old(screen).cursor_at))
        }),
{
}

} // verus!
