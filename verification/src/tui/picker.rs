//! List state: which rows exist, what was typed, where the cursor is.

use vstd::prelude::*;

use crate::git::{reading, Worktree, WorktreeModel};
use crate::path::{lossy, FilePath};
use crate::text::{ascii, contains, lowercase, occurs, small_letters, to_lowercase};
use crate::tui::keys::{action_of, key_action, Action, KeyEvent, KeyEventKind};

verus! {

/// How the picker ended.
#[derive(Debug)]
pub enum Outcome {
    /// Move to this worktree.
    Selected(FilePath),
    /// Nothing was chosen; the shell should stay where it is.
    Cancelled,
}

/// One row of the list.
#[derive(Debug)]
pub struct Item {
    pub name: String,
    pub path: FilePath,
    pub head: String,
    /// `None` until the status is known.
    ///
    /// Empty and unknown are different answers, and the column has to be able
    /// to say which one it is showing.
    pub note: Option<String>,
    pub is_current: bool,
    pub is_main: bool,
    pub worktree: Worktree,
}

/// A row as contracts speak of it.
pub struct ItemModel {
    pub name: Seq<char>,
    pub path: Seq<u8>,
    pub head: Seq<char>,
    pub note: Option<Seq<char>>,
    pub is_current: bool,
    pub is_main: bool,
    pub worktree: WorktreeModel,
}

impl View for Item {
    type V = ItemModel;

    open spec fn view(&self) -> ItemModel {
        ItemModel {
            name: self.name@,
            path: self.path@,
            head: self.head@,
            note: reading(self.note),
            is_current: self.is_current,
            is_main: self.is_main,
            worktree: self.worktree@,
        }
    }
}

/// What the rows of a list are.
pub open spec fn item_models(items: Seq<Item>) -> Seq<ItemModel> {
    items.map_values(|i: Item| i@)
}

/// What a Backspace did, since the key has two jobs.
#[derive(Debug, Clone, Copy, PartialEq, Eq, Structural)]
pub enum Backspace {
    /// Removed a character from the filter.
    ErasedFilter,
    /// Swallowed, because the filter had only just been emptied.
    Absorbed,
    /// Asked to remove the selected worktree.
    Delete,
}

/// Which of the first `n` rows hold the needle in one of their two texts.
pub open spec fn kept(rows: Seq<(Seq<char>, Seq<char>)>, needle: Seq<char>, n: nat) -> Seq<int>
    decreases n,
{
    if n == 0 {
        Seq::empty()
    } else {
        let front = kept(rows, needle, (n - 1) as nat);
        if occurs(needle, rows[n - 1].0) || occurs(needle, rows[n - 1].1) {
            front.push(n - 1)
        } else {
            front
        }
    }
}

/// What a list of pairs of texts reads.
pub open spec fn pair_readings(rows: Seq<(String, String)>) -> Seq<(Seq<char>, Seq<char>)> {
    rows.map_values(|r: (String, String)| (r.0@, r.1@))
}

/// The indices in a list.
pub open spec fn indices(list: Seq<usize>) -> Seq<int> {
    list.map_values(|i: usize| i as int)
}

/// Keeps the rows that hold the needle in one of their two texts, in order.
pub fn sift(rows: &Vec<(String, String)>, needle: &str) -> (r: Vec<usize>)
    ensures
        indices(r@) == kept(pair_readings(rows@), needle@, rows@.len()),
{
    let mut r: Vec<usize> = Vec::new();
    let ghost texts = pair_readings(rows@);
    assert(indices(r@) =~= kept(texts, needle@, 0));
    for i in 0..rows.len()
        invariant
            texts == pair_readings(rows@),
            indices(r@) == kept(texts, needle@, i as nat),
    {
        let ghost before = indices(r@);
        assert(texts[i as int] == (rows@[i as int].0@, rows@[i as int].1@));
        if contains(rows[i].0.as_str(), needle) || contains(rows[i].1.as_str(), needle) {
            r.push(i);
            assert(indices(r@) =~= before.push(i as int));
        }
    }
    r
}

/// The kept rows come in order, and are exactly those that hold the needle.
pub proof fn law_kept(rows: Seq<(Seq<char>, Seq<char>)>, needle: Seq<char>, n: nat)
    requires
        n <= rows.len(),
    ensures
        kept(rows, needle, n).len() <= n,
        forall|k: int|
            0 <= k < kept(rows, needle, n).len() ==> 0 <= #[trigger] kept(rows, needle, n)[k] < n,
        forall|j: int, k: int|
            0 <= j < k < kept(rows, needle, n).len() ==> #[trigger] kept(rows, needle, n)[j]
                < #[trigger] kept(rows, needle, n)[k],
        forall|i: int|
            0 <= i < n ==> (#[trigger] kept(rows, needle, n).contains(i) <==> occurs(
                needle,
                rows[i].0,
            ) || occurs(needle, rows[i].1)),
    decreases n,
{
    if n > 0 {
        law_kept(rows, needle, (n - 1) as nat);
        let front = kept(rows, needle, (n - 1) as nat);
        let all = kept(rows, needle, n);
        assert forall|i: int| 0 <= i < n implies (#[trigger] all.contains(i) <==> occurs(
            needle,
            rows[i].0,
        ) || occurs(needle, rows[i].1)) by {
            if occurs(needle, rows[n - 1].0) || occurs(needle, rows[n - 1].1) {
                assert(all == front.push(n - 1));
                assert(all[all.len() - 1] == n - 1);
                if front.contains(i) {
                    let k = choose|k: int| 0 <= k < front.len() && front[k] == i;
                    assert(all[k] == i);
                }
                if all.contains(i) && i != n - 1 {
                    let k = choose|k: int| 0 <= k < all.len() && all[k] == i;
                    assert(front[k] == i);
                }
            } else if i == n - 1 {
                assert(!front.contains(i));
            }
        }
    }
}

/// List state: which rows exist, what was typed, where the cursor is.
#[derive(Debug)]
pub struct Picker {
    pub items: Vec<Item>,
    pub filter: String,
    /// Index into the *filtered* list.
    pub cursor: usize,
    /// First visible row, for lists taller than the terminal.
    pub offset: usize,
    /// Set while Backspace is being used to erase the filter.
    ///
    /// Holding the key to clear what you typed sends a burst of Backspaces;
    /// without this, the burst would run past the empty filter and open the
    /// delete dialog. One press is swallowed at the boundary, so reaching the
    /// dialog always takes a deliberate keystroke.
    pub erasing: bool,
}

/// The list state as contracts speak of it.
pub struct PickerModel {
    pub items: Seq<ItemModel>,
    pub filter: Seq<char>,
    pub cursor: int,
    pub offset: int,
    pub erasing: bool,
}

impl View for Picker {
    type V = PickerModel;

    open spec fn view(&self) -> PickerModel {
        PickerModel {
            items: item_models(self.items@),
            filter: self.filter@,
            cursor: self.cursor as int,
            offset: self.offset as int,
            erasing: self.erasing,
        }
    }
}

impl PickerModel {
    /// Name and path of each row, in lower case.
    pub open spec fn lowered(self) -> Seq<(Seq<char>, Seq<char>)> {
        self.items.map_values(|i: ItemModel| (lowercase(i.name), lowercase(lossy(i.path))))
    }

    /// The rows the filter lets through: all of them while nothing is typed,
    /// and otherwise those whose name or path holds what was typed, in
    /// whatever case.
    pub open spec fn matching(self) -> Seq<int> {
        if self.filter.len() == 0 {
            Seq::new(self.items.len(), |i: int| i)
        } else {
            kept(self.lowered(), lowercase(self.filter), self.items.len())
        }
    }

    /// The filter, the names and the paths hold ASCII characters alone.
    pub open spec fn is_ascii(self) -> bool {
        &&& ascii(self.filter)
        &&& forall|i: int|
            0 <= i < self.items.len() ==> ascii((#[trigger] self.items[i]).name) && ascii(
                lossy(self.items[i].path),
            )
    }

    /// The rows the filter lets through, where there is nothing but ASCII.
    pub open spec fn ascii_matching(self) -> Seq<int> {
        if self.filter.len() == 0 {
            Seq::new(self.items.len(), |i: int| i)
        } else {
            kept(
                self.items.map_values(
                    |i: ItemModel| (small_letters(i.name), small_letters(lossy(i.path))),
                ),
                small_letters(self.filter),
                self.items.len(),
            )
        }
    }

    /// The row under the cursor.
    pub open spec fn selected(self) -> Option<ItemModel> {
        if 0 <= self.cursor < self.matching().len() {
            Some(self.items[self.matching()[self.cursor]])
        } else {
            None
        }
    }

    /// The cursor one row further down, from the last row to the first.
    pub open spec fn moved_down(self) -> PickerModel {
        let len = self.matching().len() as int;
        if len > 0 {
            PickerModel { cursor: (self.cursor + 1) % len, ..self }
        } else {
            self
        }
    }

    /// The cursor one row further up, from the first row to the last.
    pub open spec fn moved_up(self) -> PickerModel {
        let len = self.matching().len() as int;
        if len > 0 {
            PickerModel { cursor: (self.cursor + len - 1) % len, ..self }
        } else {
            self
        }
    }

    /// The cursor brought back inside the filtered list.
    pub open spec fn clamped(self) -> PickerModel {
        let len = self.matching().len() as int;
        if len == 0 {
            PickerModel { cursor: 0, ..self }
        } else if self.cursor >= len {
            PickerModel { cursor: len - 1, ..self }
        } else {
            self
        }
    }

    /// With another filter.
    pub open spec fn with_filter(self, filter: Seq<char>) -> PickerModel {
        PickerModel { filter, ..self }
    }

    /// With another filter, and the cursor inside what it lets through.
    pub open spec fn filtered_by(self, filter: Seq<char>) -> PickerModel {
        self.with_filter(filter).clamped()
    }

    /// After a Backspace, and what it did.
    pub open spec fn backspaced(self) -> (PickerModel, Backspace) {
        if self.filter.len() > 0 {
            (
                PickerModel { erasing: true, ..self.filtered_by(self.filter.drop_last()) },
                Backspace::ErasedFilter,
            )
        } else if self.erasing {
            (PickerModel { erasing: false, ..self }, Backspace::Absorbed)
        } else {
            (self, Backspace::Delete)
        }
    }

    /// Scrolled by as little as brings the cursor into a window of `height`
    /// rows.
    pub open spec fn scrolled(self, height: int) -> PickerModel {
        if height == 0 {
            self
        } else if self.cursor < self.offset {
            PickerModel { offset: self.cursor, ..self }
        } else if self.cursor >= self.offset + height {
            PickerModel { offset: self.cursor + 1 - height, ..self }
        } else {
            self
        }
    }
}

impl Picker {
    pub fn new(items: Vec<Item>) -> (r: Picker)
        ensures
            r@ == (PickerModel {
                items: item_models(items@),
                filter: Seq::empty(),
                cursor: 0,
                offset: 0,
                erasing: false,
            }),
    {
        Picker { items, filter: String::new(), cursor: 0, offset: 0, erasing: false }
    }

    /// Resolves what Backspace means right now.
    pub fn backspace(&mut self) -> (r: Backspace)
        ensures
            (final(self)@, r) == old(self)@.backspaced(),
    {
        if !self.filter.as_str().is_empty() {
            self.pop_filter();
            self.erasing = true;
            return Backspace::ErasedFilter;
        }
        if self.erasing {
            self.erasing = false;
            return Backspace::Absorbed;
        }
        Backspace::Delete
    }

    /// Any other key ends the erasing streak.
    pub fn note_other_key(&mut self)
        ensures
            final(self)@ == (PickerModel { erasing: false, ..old(self)@ }),
    {
        self.erasing = false;
    }

    /// Indices of the items matching the filter.
    ///
    /// Matching is a case-insensitive substring test over the name and the
    /// path, which is what makes typing a fragment of a branch name work.
    pub fn matches(&self) -> (r: Vec<usize>)
        ensures
            indices(r@) == self@.matching(),
            self@.is_ascii() ==> indices(r@) == self@.ascii_matching(),
            forall|k: int| 0 <= k < r@.len() ==> #[trigger] r@[k] < self.items@.len(),
    {
        if self.filter.as_str().is_empty() {
            let mut all: Vec<usize> = Vec::new();
            for i in 0..self.items.len()
                invariant
                    all@.len() == i,
                    forall|k: int| 0 <= k < i ==> #[trigger] all@[k] == k,
            {
                all.push(i);
            }
            assert(indices(all@) =~= self@.matching());
            return all;
        }
        let needle = to_lowercase(self.filter.as_str());
        let mut rows: Vec<(String, String)> = Vec::new();
        for i in 0..self.items.len()
            invariant
                rows@.len() == i,
                forall|k: int|
                    0 <= k < i ==> (#[trigger] rows@[k]).0@ == lowercase(self.items@[k].name@)
                        && rows@[k].1@ == lowercase(lossy(self.items@[k].path@)),
                forall|k: int|
                    0 <= k < i && ascii(self.items@[k].name@) ==> (#[trigger] rows@[k]).0@
                        == small_letters(self.items@[k].name@),
                forall|k: int|
                    0 <= k < i && ascii(lossy(self.items@[k].path@)) ==> (#[trigger] rows@[k]).1@
                        == small_letters(lossy(self.items@[k].path@)),
        {
            let path = self.items[i].path.display();
            rows.push(
                (to_lowercase(self.items[i].name.as_str()), to_lowercase(path.as_str())),
            );
        }
        assert(pair_readings(rows@) =~= self@.lowered());
        proof {
            if self@.is_ascii() {
                let small = self@.items.map_values(
                    |i: ItemModel| (small_letters(i.name), small_letters(lossy(i.path))),
                );
                assert forall|k: int| 0 <= k < rows@.len() implies pair_readings(rows@)[k]
                    == small[k] by {
                    assert(self@.items[k] == self.items@[k]@);
                }
                assert(pair_readings(rows@) =~= small);
            }
        }
        let r = sift(&rows, needle.as_str());
        proof {
            law_kept(self@.lowered(), lowercase(self.filter@), self.items@.len());
            assert forall|k: int| 0 <= k < r@.len() implies #[trigger] r@[k] < self.items@.len() by {
                assert(indices(r@)[k] == r@[k]);
            }
        }
        r
    }

    /// The row under the cursor, if the filter leaves one.
    pub fn selected(&self) -> (r: Option<&Item>)
        ensures
            match r {
                Some(item) => self@.selected() == Some(item@),
                None => self@.selected() is None,
            },
    {
        let matches = self.matches();
        if self.cursor < matches.len() {
            assert(indices(matches@)[self.cursor as int] == matches@[self.cursor as int]);
            Some(&self.items[matches[self.cursor]])
        } else {
            assert(indices(matches@).len() == matches@.len());
            None
        }
    }

    pub fn move_down(&mut self)
        ensures
            final(self)@ == old(self)@.moved_down(),
    {
        let len: usize = self.matches().len();
        if len > 0 {
            let at: u128 = (self.cursor as u128 + 1) % (len as u128);
            self.cursor = at as usize;
        }
    }

    pub fn move_up(&mut self)
        ensures
            final(self)@ == old(self)@.moved_up(),
    {
        let len: usize = self.matches().len();
        if len > 0 {
            let at: u128 = (self.cursor as u128 + len as u128 - 1) % (len as u128);
            self.cursor = at as usize;
        }
    }

    pub fn push_filter(&mut self, c: char)
        ensures
            final(self)@ == old(self)@.filtered_by(old(self)@.filter.push(c)),
    {
        self.filter.push(c);
        self.clamp();
    }

    pub fn pop_filter(&mut self)
        ensures
            final(self)@ == old(self)@.filtered_by(
                if old(self)@.filter.len() > 0 {
                    old(self)@.filter.drop_last()
                } else {
                    Seq::empty()
                },
            ),
    {
        self.filter.pop();
        assert(old(self)@.filter.len() == 0 ==> self.filter@ =~= Seq::<char>::empty());
        self.clamp();
    }

    /// Keeps the cursor inside the filtered list after it shrinks or grows.
    pub fn clamp(&mut self)
        ensures
            final(self)@ == old(self)@.clamped(),
    {
        let len: usize = self.matches().len();
        if len == 0 {
            self.cursor = 0;
        } else if self.cursor >= len {
            self.cursor = len - 1;
        }
    }

    /// Scrolls so the cursor stays visible in a window of `height` rows.
    pub fn scroll_into_view(&mut self, height: usize)
        ensures
            final(self)@ == old(self)@.scrolled(height as int),
    {
        if height == 0 {
            return;
        }
        if self.cursor < self.offset {
            self.offset = self.cursor;
        } else if self.cursor - self.offset >= height {
            self.offset = self.cursor - height + 1;
        }
    }
}

/// What the loop does after a key has been applied to the list.
#[derive(Debug)]
pub enum Step {
    /// Redraw and wait for the next key.
    Stay,
    /// The picker is finished.
    Done(Outcome),
    /// Open the confirmation dialog for the selected row.
    Delete,
}

/// A step as contracts speak of it.
pub enum StepModel {
    Stay,
    /// Finished, with the path of the chosen worktree or without one.
    Done(Option<Seq<u8>>),
    Delete,
}

impl View for Step {
    type V = StepModel;

    open spec fn view(&self) -> StepModel {
        match *self {
            Step::Stay => StepModel::Stay,
            Step::Done(Outcome::Selected(path)) => StepModel::Done(Some(path@)),
            Step::Done(Outcome::Cancelled) => StepModel::Done(None),
            Step::Delete => StepModel::Delete,
        }
    }
}

/// What an action makes of the list, and what the loop does next.
pub open spec fn stepped(picker: PickerModel, action: Action) -> (PickerModel, StepModel) {
    let rested = PickerModel { erasing: false, ..picker };
    match action {
        Action::Cancel => (rested, StepModel::Done(None)),
        Action::Confirm => match rested.selected() {
            Some(item) => (rested, StepModel::Done(Some(item.path))),
            None => (rested, StepModel::Stay),
        },
        Action::Down => (rested.moved_down(), StepModel::Stay),
        Action::Up => (rested.moved_up(), StepModel::Stay),
        Action::Backspace => (
            picker.backspaced().0,
            if picker.backspaced().1 == Backspace::Delete {
                StepModel::Delete
            } else {
                StepModel::Stay
            },
        ),
        Action::Insert(c) => (rested.filtered_by(rested.filter.push(c)), StepModel::Stay),
        Action::Delete => (rested, StepModel::Delete),
        Action::Ignore => (rested, StepModel::Stay),
    }
}

/// Applies one key to the list, leaving anything that needs the terminal to
/// the caller.
pub fn step(picker: &mut Picker, action: Action) -> (r: Step)
    ensures
        (final(picker)@, r@) == stepped(old(picker)@, action),
{
    if action != Action::Backspace {
        picker.note_other_key();
    }
    match action {
        Action::Cancel => Step::Done(Outcome::Cancelled),
        Action::Confirm => match picker.selected() {
            Some(item) => Step::Done(Outcome::Selected(item.path.clone())),
            // Nothing matches the filter, so there is nowhere to go.
            None => Step::Stay,
        },
        Action::Down => {
            picker.move_down();
            Step::Stay
        },
        Action::Up => {
            picker.move_up();
            Step::Stay
        },
        Action::Backspace => match picker.backspace() {
            Backspace::Delete => Step::Delete,
            _ => Step::Stay,
        },
        Action::Insert(c) => {
            picker.push_filter(c);
            Step::Stay
        },
        Action::Delete => Step::Delete,
        Action::Ignore => Step::Stay,
    }
}

/// Takes a key while the list is on screen. Anything but a press is let go by;
/// a press clears the message and is applied to the list.
pub fn take_key(picker: &mut Picker, message: &mut Option<String>, key: &KeyEvent) -> (r: Step)
    ensures
        key.kind == KeyEventKind::Press ==> (final(picker)@, r@) == stepped(
            old(picker)@,
            action_of(*key),
        ) && *final(message) is None,
        key.kind != KeyEventKind::Press ==> final(picker)@ == old(picker)@ && r@ == StepModel::Stay
            && *final(message) == *old(message),
{
    // Some terminals report both press and release; act on press only.
    if key.kind != KeyEventKind::Press {
        return Step::Stay;
    }
    *message = None;
    step(picker, key_action(key))
}

/// Whether a command should open the picker instead of printing.
///
/// Without a terminal — a script, a pipeline, CI — the caller keeps its plain
/// behaviour. A repository whose only worktree is the main one has nothing
/// worth picking from either.
pub fn should_pick(terminal: bool, worktrees: usize) -> (r: bool)
    ensures
        r == (terminal && worktrees > 1),
{
    if !terminal {
        return false;
    }
    worktrees > 1
}

impl PickerModel {
    /// The cursor stands on a row, or at the top of a list without any.
    pub open spec fn cursor_inside(self) -> bool {
        let len = self.matching().len() as int;
        self.cursor == 0 || 0 <= self.cursor < len
    }
}

/// The rows the filter lets through are rows of the list, each once and in
/// order.
pub proof fn law_matching_rows(picker: PickerModel)
    ensures
        picker.matching().len() <= picker.items.len(),
        forall|k: int|
            0 <= k < picker.matching().len() ==> 0 <= #[trigger] picker.matching()[k]
                < picker.items.len(),
        forall|j: int, k: int|
            0 <= j < k < picker.matching().len() ==> #[trigger] picker.matching()[j]
                < #[trigger] picker.matching()[k],
{
    law_kept(picker.lowered(), lowercase(picker.filter), picker.items.len());
}

/// With nothing typed, every row is listed.
pub proof fn law_empty_filter_lists_everything(picker: PickerModel)
    requires
        picker.filter.len() == 0,
    ensures
        picker.matching() == Seq::new(picker.items.len(), |i: int| i),
{
}

/// A row is listed exactly when its name or its path holds what was typed,
/// compared in lower case.
pub proof fn law_filter_matches_name_or_path(picker: PickerModel, i: int)
    requires
        picker.filter.len() > 0,
        0 <= i < picker.items.len(),
    ensures
        picker.matching().contains(i) <==> occurs(
            lowercase(picker.filter),
            lowercase(picker.items[i].name),
        ) || occurs(lowercase(picker.filter), lowercase(lossy(picker.items[i].path))),
{
    law_kept(picker.lowered(), lowercase(picker.filter), picker.items.len());
}

/// Case makes no difference: what is listed depends on the typed text only by
/// its lower case.
pub proof fn law_filter_ignores_case(picker: PickerModel, other: Seq<char>)
    requires
        picker.filter.len() > 0,
        other.len() > 0,
        lowercase(other) == lowercase(picker.filter),
    ensures
        picker.with_filter(other).matching() == picker.matching(),
{
    assert(picker.with_filter(other).lowered() =~= picker.lowered());
}

/// No key changes the rows of the list, and no key but a typed character or
/// Backspace changes the filter.
pub proof fn law_keys_leave_the_rows_alone(picker: PickerModel, action: Action)
    ensures
        stepped(picker, action).0.items == picker.items,
        action is Insert || action == Action::Backspace || stepped(picker, action).0.filter
            == picker.filter,
{
}

/// The cursor stays inside the filtered list, whatever key is pressed.
pub proof fn law_cursor_stays_inside(picker: PickerModel, action: Action)
    requires
        picker.cursor_inside(),
    ensures
        stepped(picker, action).0.cursor_inside(),
{
    let rested = PickerModel { erasing: false, ..picker };
    let len = rested.matching().len() as int;
    assert(rested.lowered() =~= picker.lowered());
    match action {
        Action::Down => {
            assert(rested.moved_down().lowered() =~= rested.lowered());
            if len > 0 {
                assert(0 <= (rested.cursor + 1) % len < len) by (nonlinear_arith)
                    requires
                        len > 0,
                ;
            }
        },
        Action::Up => {
            assert(rested.moved_up().lowered() =~= rested.lowered());
            if len > 0 {
                assert(0 <= (rested.cursor + len - 1) % len < len) by (nonlinear_arith)
                    requires
                        len > 0,
                ;
            }
        },
        Action::Insert(c) => {
            lemma_filtered_inside(rested, rested.filter.push(c));
        },
        Action::Backspace => {
            if picker.filter.len() > 0 {
                lemma_filtered_inside(picker, picker.filter.drop_last());
                let q = picker.filtered_by(picker.filter.drop_last());
                assert((PickerModel { erasing: true, ..q }).lowered() =~= q.lowered());
            } else {
                assert((PickerModel { erasing: false, ..picker }).lowered() =~= picker.lowered());
            }
        },
        _ => {},
    }
}

proof fn lemma_filtered_inside(picker: PickerModel, filter: Seq<char>)
    ensures
        picker.filtered_by(filter).cursor_inside() || picker.cursor < 0,
        picker.filtered_by(filter).filter == filter,
{
    let p = picker.with_filter(filter);
    assert(p.clamped().lowered() =~= p.lowered());
}

/// Moving down and then up, or up and then down, comes back to the same row.
pub proof fn law_down_and_up_undo_each_other(picker: PickerModel)
    requires
        picker.cursor_inside(),
    ensures
        picker.moved_down().moved_up() == picker,
        picker.moved_up().moved_down() == picker,
{
    let len = picker.matching().len() as int;
    if len > 0 {
        let c = picker.cursor;
        let down = picker.moved_down();
        let up = picker.moved_up();
        assert(down.lowered() =~= picker.lowered());
        assert(up.lowered() =~= picker.lowered());
        lemma_step_mod(c, len);
    }
}

proof fn lemma_step_mod(c: int, len: int)
    requires
        0 <= c < len,
    ensures
        (c + 1) % len == if c + 1 == len {
            0
        } else {
            c + 1
        },
        (c + len - 1) % len == if c == 0 {
            len - 1
        } else {
            c - 1
        },
        ((c + 1) % len + len - 1) % len == c,
        ((c + len - 1) % len + 1) % len == c,
{
    lemma_wrap(c + 1, len);
    lemma_wrap(c + len - 1, len);
    lemma_wrap((c + 1) % len + len - 1, len);
    lemma_wrap((c + len - 1) % len + 1, len);
}

/// Below twice the length, wrapping takes the length off at most once.
proof fn lemma_wrap(x: int, len: int)
    by (nonlinear_arith)
    requires
        0 < len,
        0 <= x < 2 * len,
    ensures
        x % len == if x < len {
            x
        } else {
            x - len
        },
{
}

/// Past the last row the cursor comes round to the first, and the other way.
pub proof fn law_cursor_wraps_around(picker: PickerModel)
    requires
        picker.matching().len() > 0,
    ensures
        picker.cursor == picker.matching().len() - 1 ==> picker.moved_down().cursor == 0,
        picker.cursor == 0 ==> picker.moved_up().cursor == picker.matching().len() - 1,
{
    let len = picker.matching().len() as int;
    if picker.cursor == len - 1 || picker.cursor == 0 {
        lemma_step_mod(picker.cursor, len);
    }
}

/// After scrolling into a window that has any room, the cursor is in it.
pub proof fn law_scrolling_follows_the_cursor(picker: PickerModel, height: int)
    requires
        height > 0,
        picker.cursor >= 0,
    ensures
        picker.scrolled(height).offset <= picker.cursor < picker.scrolled(height).offset + height,
        picker.scrolled(height).scrolled(height) == picker.scrolled(height),
{
}

/// A window without room leaves the list where it was.
pub proof fn law_no_room_no_scrolling(picker: PickerModel)
    ensures
        picker.scrolled(0) == picker,
{
}

/// What a run of `n` presses of Backspace does, press by press.
pub open spec fn burst(picker: PickerModel, n: nat) -> Seq<Backspace>
    decreases n,
{
    if n == 0 {
        Seq::empty()
    } else {
        seq![picker.backspaced().1] + burst(picker.backspaced().0, (n - 1) as nat)
    }
}

/// Holding Backspace to clear the filter cannot run into a deletion: as many
/// presses as there are characters erase them, the next is swallowed, and only
/// the one after that asks to delete.
pub proof fn law_holding_backspace_cannot_delete(picker: PickerModel)
    requires
        picker.filter.len() > 0,
    ensures
        burst(picker, picker.filter.len() + 2) == Seq::new(
            picker.filter.len(),
            |i: int| Backspace::ErasedFilter,
        ) + seq![Backspace::Absorbed, Backspace::Delete],
    decreases picker.filter.len(),
{
    let n = picker.filter.len();
    let next = picker.backspaced().0;
    assert(next.filter == picker.filter.drop_last());
    assert(burst(picker, n + 2) == seq![Backspace::ErasedFilter] + burst(next, n + 1));
    if n > 1 {
        law_holding_backspace_cannot_delete(next);
    } else {
        let after = next.backspaced().0;
        assert(burst(next, 2) == seq![Backspace::Absorbed] + burst(after, 1));
        assert(burst(after, 1) == seq![Backspace::Delete] + burst(after.backspaced().0, 0));
    }
    assert(burst(picker, n + 2) =~= Seq::new(n, |i: int| Backspace::ErasedFilter) + seq![
        Backspace::Absorbed,
        Backspace::Delete,
    ]);
}

/// Backspace reaches the dialog exactly when nothing is typed and the press is
/// not part of clearing what was; Ctrl-D and Delete always reach it.
pub proof fn law_only_a_deliberate_backspace_deletes(picker: PickerModel)
    ensures
        stepped(picker, Action::Backspace).1 is Delete <==> picker.filter.len() == 0
            && !picker.erasing,
        stepped(picker, Action::Delete).1 is Delete,
{
}

/// Any key but Backspace ends the erasing streak.
pub proof fn law_other_keys_end_the_streak(picker: PickerModel, action: Action)
    requires
        action != Action::Backspace,
    ensures
        !stepped(picker, action).0.erasing,
{
}

/// Erasing a character that was just typed brings the filter back.
pub proof fn law_backspace_undoes_typing(picker: PickerModel, c: char)
    ensures
        stepped(stepped(picker, Action::Insert(c)).0, Action::Backspace).0.filter == picker.filter,
        stepped(stepped(picker, Action::Insert(c)).0, Action::Backspace).0.matching()
            == picker.matching(),
{
    let typed = stepped(picker, Action::Insert(c)).0;
    let back = stepped(typed, Action::Backspace).0;
    assert(typed.filter == picker.filter.push(c));
    assert(typed.filter.drop_last() =~= picker.filter);
    assert(back.filter == picker.filter);
    assert(back.items == picker.items);
    assert(back.lowered() =~= picker.lowered());
}

/// Enter leaves the picker only for a row that is listed, and with its path.
pub proof fn law_enter_needs_a_row(picker: PickerModel)
    ensures
        stepped(picker, Action::Confirm).1 == match picker.selected() {
            Some(item) => StepModel::Done(Some(item.path)),
            None => StepModel::Stay,
        },
{
    let rested = PickerModel { erasing: false, ..picker };
    assert(rested.lowered() =~= picker.lowered());
}

} // verus!
