//! What is worth knowing about a worktree before acting on it.

use vstd::prelude::*;

use crate::commands::list::{
    entry_models, law_only_one_place_is_stood_in, standing, stood_in, Entry, EntryModel,
};
use crate::git::{copy_text, reading, Merged, Worktree, WorktreeModel};
use crate::path::{same_place, FilePath};
use crate::text::{join, joined, readings};
use crate::tui::picker::{item_models, Item, ItemModel};

verus! {

/// The words for what git says about a worktree.
pub open spec fn flag_words(worktree: WorktreeModel) -> Seq<Seq<char>> {
    let bare = if worktree.bare {
        seq!["bare"@]
    } else {
        Seq::empty()
    };
    let detached = if worktree.detached {
        seq!["detached"@]
    } else {
        Seq::empty()
    };
    let locked = if worktree.locked {
        seq!["locked"@]
    } else {
        Seq::empty()
    };
    let broken = if worktree.prunable {
        seq!["broken"@]
    } else {
        Seq::empty()
    };
    bare + detached + locked + broken
}

/// Repeats what git says about a worktree, and nothing else.
pub fn flags(wt: &Worktree) -> (r: Vec<String>)
    ensures
        readings(r@) == flag_words(wt@),
{
    let mut notes: Vec<String> = Vec::new();
    if wt.bare {
        notes.push("bare".to_string());
    }
    if wt.detached {
        notes.push("detached".to_string());
    }
    if wt.locked {
        notes.push("locked".to_string());
    }
    if wt.prunable {
        notes.push("broken".to_string());
    }
    assert(readings(notes@) =~= flag_words(wt@));
    notes
}

/// What the status column says about a worktree: uncommitted changes first,
/// since they are what a removal loses, then whether its branch is merged,
/// then what git says about it.
pub open spec fn status_words(
    dirty: Option<bool>,
    merged: Option<Merged>,
    is_main: bool,
    flags: Seq<Seq<char>>,
) -> Seq<Seq<char>> {
    let changes = if dirty == Some(true) {
        seq!["dirty"@]
    } else {
        Seq::empty()
    };
    let work = if !is_main && merged is Some && merged != Some(Merged::No) {
        seq!["merged"@]
    } else {
        Seq::empty()
    };
    changes + work + flags
}

/// What is worth knowing about a worktree before acting on it.
///
/// `dirty` and `merged` are what git answered, and `None` where it could not
/// answer or there was no branch to ask about. "merged" is skipped for the
/// main worktree: a branch is always merged into itself, and the main worktree
/// cannot be removed anyway. Squash-merged and plainly merged both read as
/// "merged" here. The column is a hint about what a removal would cost, and
/// the cost is the same; `gwx clean` is where the difference is spelt out.
pub fn note(dirty: Option<bool>, merged: Option<Merged>, is_main: bool, flags: &Vec<String>) -> (r:
    String)
    ensures
        r@ == joined(status_words(dirty, merged, is_main, readings(flags@)), ", "@),
{
    let mut notes: Vec<String> = Vec::new();
    if dirty.unwrap_or(false) {
        notes.push("dirty".to_string());
    }
    if !is_main {
        if let Some(merged) = merged {
            if merged != Merged::No {
                notes.push("merged".to_string());
            }
        }
    }
    let ghost own = readings(notes@);
    assert(own =~= status_words(dirty, merged, is_main, Seq::empty()));
    for i in 0..flags.len()
        invariant
            readings(notes@) =~= own + readings(flags@).take(i as int),
    {
        let ghost before = readings(notes@);
        notes.push(flags[i].clone());
        assert(readings(notes@) =~= before.push(readings(flags@)[i as int]));
    }
    assert(readings(flags@).take(flags@.len() as int) =~= readings(flags@));
    assert(readings(notes@) =~= status_words(dirty, merged, is_main, readings(flags@)));
    join(&notes, ", ")
}

/// The row a worktree starts out as: its status is not known yet.
pub open spec fn loaded_item(main: Seq<u8>, entry: EntryModel, current: bool) -> ItemModel {
    ItemModel {
        name: entry.name,
        path: entry.worktree.path,
        head: entry.head,
        note: None,
        is_current: current,
        is_main: same_place(entry.worktree.path, main),
        worktree: entry.worktree,
    }
}

/// The rows of a list of worktrees, the first of which is the main one. The one
/// the command was started in is the current one.
pub open spec fn loaded(cwd: Seq<u8>, list: Seq<EntryModel>) -> Seq<ItemModel> {
    Seq::new(
        list.len(),
        |i: int| loaded_item(list[0].worktree.path, list[i], stood_in(cwd, list, i)),
    )
}

/// Builds the rows without asking git anything slow.
///
/// The status column is left unknown here and filled in later: it costs a
/// `git status` per worktree, which is fast in a small repository and seconds
/// across ten of them. The list has to be on screen before that.
pub fn load(cwd: &FilePath, entries: &Vec<Entry>) -> (r: Vec<Item>)
    ensures
        item_models(r@) == loaded(cwd@, entry_models(entries@)),
{
    let mut r: Vec<Item> = Vec::new();
    let marks = standing(cwd, entries);
    let ghost want = loaded(cwd@, entry_models(entries@));
    for i in 0..entries.len()
        invariant
            want == loaded(cwd@, entry_models(entries@)),
            marks@.len() == entries@.len(),
            forall|j: int|
                0 <= j < marks@.len() ==> #[trigger] marks@[j] == stood_in(
                    cwd@,
                    entry_models(entries@),
                    j,
                ),
            r@.len() == i,
            forall|j: int| 0 <= j < i ==> (#[trigger] r@[j])@ == want[j],
    {
        let wt = &entries[i].worktree;
        let main = &entries[0].worktree.path;
        assert(entry_models(entries@)[i as int] == entries@[i as int]@);
        assert(entry_models(entries@)[0] == entries@[0]@);
        r.push(
            Item {
                name: entries[i].name.clone(),
                head: entries[i].head.clone(),
                note: None,
                is_main: wt.path.is(main),
                is_current: marks[i],
                path: wt.path.clone(),
                worktree: wt.clone(),
            },
        );
        assert(r@[i as int]@ == want[i as int]);
    }
    assert(item_models(r@) =~= want);
    r
}

/// Everything a worker needs to describe one worktree, owned so it can move
/// to another thread.
#[derive(Debug)]
pub struct StatusJob {
    pub index: usize,
    pub path: FilePath,
    pub branch: Option<String>,
    pub is_main: bool,
    pub flags: Vec<String>,
}

/// A job as contracts speak of it.
pub struct StatusJobModel {
    pub index: int,
    pub path: Seq<u8>,
    pub branch: Option<Seq<char>>,
    pub is_main: bool,
    pub flags: Seq<Seq<char>>,
}

impl View for StatusJob {
    type V = StatusJobModel;

    open spec fn view(&self) -> StatusJobModel {
        StatusJobModel {
            index: self.index as int,
            path: self.path@,
            branch: reading(self.branch),
            is_main: self.is_main,
            flags: readings(self.flags@),
        }
    }
}

/// The jobs that fill in the status column, one per row.
pub fn status_jobs(items: &Vec<Item>) -> (r: Vec<StatusJob>)
    ensures
        r@.len() == items@.len(),
        forall|i: int|
            0 <= i < r@.len() ==> (#[trigger] r@[i])@ == (StatusJobModel {
                index: i,
                path: items@[i]@.path,
                branch: items@[i]@.worktree.branch,
                is_main: items@[i]@.is_main,
                flags: flag_words(items@[i]@.worktree),
            }),
{
    let mut r: Vec<StatusJob> = Vec::new();
    for index in 0..items.len()
        invariant
            r@.len() == index,
            forall|i: int|
                0 <= i < index ==> (#[trigger] r@[i])@ == (StatusJobModel {
                    index: i,
                    path: items@[i]@.path,
                    branch: items@[i]@.worktree.branch,
                    is_main: items@[i]@.is_main,
                    flags: flag_words(items@[i]@.worktree),
                }),
    {
        let item = &items[index];
        r.push(
            StatusJob {
                index,
                path: item.path.clone(),
                branch: copy_text(&item.worktree.branch),
                is_main: item.is_main,
                flags: flags(&item.worktree),
            },
        );
    }
    r
}

/// What came from the workers when they were last looked in on.
#[derive(Debug)]
pub enum Arrival {
    /// All their notes, each with the row it is for.
    Notes(Vec<(usize, String)>),
    /// Nothing yet.
    Empty,
    /// Nothing, and nothing ever will.
    Disconnected,
}

/// The notes of a delivery, as contracts speak of them.
pub open spec fn note_readings(notes: Seq<(usize, String)>) -> Seq<(usize, Seq<char>)> {
    notes.map_values(|n: (usize, String)| (n.0, n.1@))
}

/// The rows once notes were written down. A note for a row that is not there
/// any more is dropped, and of two for one row the later counts.
pub open spec fn noted(items: Seq<ItemModel>, notes: Seq<(usize, Seq<char>)>) -> Seq<ItemModel>
    decreases notes.len(),
{
    if notes.len() == 0 {
        items
    } else {
        let before = noted(items, notes.drop_last());
        let (index, text) = notes.last();
        if index < before.len() {
            before.update(
                index as int,
                ItemModel { note: Some(text), ..before[index as int] },
            )
        } else {
            before
        }
    }
}

/// Fills in the status column without blocking the list.
///
/// The workers report once, all together; after that nothing more is coming.
#[derive(Debug)]
pub struct StatusFeed {
    pub waiting: bool,
}

/// Writes notes down in the rows they are for.
fn write_notes(items: &mut Vec<Item>, notes: &Vec<(usize, String)>)
    ensures
        item_models(final(items)@) == noted(item_models(old(items)@), note_readings(notes@)),
{
    let ghost start = item_models(items@);
    let ghost all = note_readings(notes@);
    for i in 0..notes.len()
        invariant
            all == note_readings(notes@),
            item_models(items@) == noted(start, all.take(i as int)),
    {
        let ghost before = item_models(items@);
        let index: usize = notes[i].0;
        proof {
            assert(all.take(i + 1).drop_last() =~= all.take(i as int));
            assert(all.take(i + 1).last() == (notes@[i as int].0, notes@[i as int].1@));
        }
        if index < items.len() {
            items[index].note = Some(notes[i].1.clone());
            assert(item_models(items@) =~= before.update(
                index as int,
                ItemModel { note: Some(notes@[i as int].1@), ..before[index as int] },
            ));
        }
    }
    assert(all.take(notes@.len() as int) =~= all);
}

impl StatusFeed {
    /// A feed whose workers have just been sent off.
    pub fn new() -> (r: StatusFeed)
        ensures
            r.waiting,
    {
        StatusFeed { waiting: true }
    }

    /// Applies whatever has arrived. `true` when the screen needs redrawing.
    pub fn drain(&mut self, arrival: &Arrival, items: &mut Vec<Item>) -> (r: bool)
        ensures
            r == (old(self).waiting && arrival is Notes),
            final(self).waiting == (old(self).waiting && arrival is Empty),
            item_models(final(items)@) == if r {
                noted(item_models(old(items)@), note_readings(arrival->Notes_0@))
            } else {
                item_models(old(items)@)
            },
    {
        if !self.waiting {
            return false;
        }
        match arrival {
            Arrival::Notes(notes) => {
                write_notes(items, notes);
                self.waiting = false;
                true
            },
            Arrival::Empty => false,
            Arrival::Disconnected => {
                self.waiting = false;
                false
            },
        }
    }

    /// Once nothing more is coming, the loop can go back to blocking on keys.
    pub fn is_done(&self) -> (r: bool)
        ensures
            r == !self.waiting,
    {
        !self.waiting
    }
}

/// Filling in notes changes nothing but notes: the rows stay the same rows.
pub proof fn law_notes_change_only_notes(items: Seq<ItemModel>, notes: Seq<(usize, Seq<char>)>)
    ensures
        noted(items, notes).len() == items.len(),
        forall|i: int|
            0 <= i < items.len() ==> (#[trigger] noted(items, notes)[i]) == (ItemModel {
                note: noted(items, notes)[i].note,
                ..items[i]
            }),
    decreases notes.len(),
{
    if notes.len() > 0 {
        law_notes_change_only_notes(items, notes.drop_last());
    }
}

/// Of a delivery that names no row twice, every row that is named and there gets
/// its note, and every other row stays as it was.
pub proof fn law_notes_reach_their_rows(items: Seq<ItemModel>, notes: Seq<(usize, Seq<char>)>)
    requires
        forall|a: int, b: int|
            0 <= a < b < notes.len() ==> (#[trigger] notes[a]).0 != (#[trigger] notes[b]).0,
    ensures
        noted(items, notes).len() == items.len(),
        forall|k: int|
            0 <= k < notes.len() && (#[trigger] notes[k]).0 < items.len() ==> noted(
                items,
                notes,
            )[notes[k].0 as int] == (ItemModel {
                note: Some(notes[k].1),
                ..items[notes[k].0 as int]
            }),
        forall|i: int|
            0 <= i < items.len() && (forall|k: int|
                0 <= k < notes.len() ==> (#[trigger] notes[k]).0 != i) ==> #[trigger] noted(
                items,
                notes,
            )[i] == items[i],
    decreases notes.len(),
{
    law_notes_change_only_notes(items, notes);
    if notes.len() > 0 {
        let front = notes.drop_last();
        let last = notes[notes.len() - 1];
        assert forall|a: int, b: int| 0 <= a < b < front.len() implies (#[trigger] front[a]).0 != (
        #[trigger] front[b]).0 by {
            assert(notes[a].0 != notes[b].0);
        }
        law_notes_reach_their_rows(items, front);
        let before = noted(items, front);
        let now = noted(items, notes);
        assert forall|k: int| 0 <= k < notes.len() && (#[trigger] notes[k]).0 < items.len() implies
            now[notes[k].0 as int] == (ItemModel {
            note: Some(notes[k].1),
            ..items[notes[k].0 as int]
        }) by {
            law_notes_change_only_notes(items, front);
            if k < front.len() {
                assert(front[k] == notes[k]);
                assert(notes[k].0 != last.0);
                assert(now[notes[k].0 as int] == before[notes[k].0 as int]);
            }
        }
        assert forall|i: int|
            0 <= i < items.len() && (forall|k: int|
                0 <= k < notes.len() ==> (#[trigger] notes[k]).0 != i) implies #[trigger] now[i]
            == items[i] by {
            assert(last.0 != i);
            assert forall|k: int| 0 <= k < front.len() implies (#[trigger] front[k]).0 != i by {
                assert(front[k] == notes[k]);
            }
            assert(before[i] == items[i]);
        }
    }
}

/// When every row has its note, every row says what its note says: nothing is
/// left waiting.
pub proof fn law_every_row_is_filled_in(items: Seq<ItemModel>, notes: Seq<(usize, Seq<char>)>)
    requires
        notes.len() == items.len(),
        forall|i: int| 0 <= i < notes.len() ==> (#[trigger] notes[i]).0 == i,
    ensures
        noted(items, notes).len() == items.len(),
        forall|i: int|
            0 <= i < items.len() ==> (#[trigger] noted(items, notes)[i]).note == Some(notes[i].1),
{
    law_notes_reach_their_rows(items, notes);
    assert forall|i: int| 0 <= i < items.len() implies (#[trigger] noted(items, notes)[i]).note
        == Some(notes[i].1) by {
        assert(notes[i].0 == i);
    }
}

/// Where every worktree has a place of its own, at most one row is marked as the
/// one you stand in.
pub proof fn law_only_one_row_is_current(cwd: Seq<u8>, list: Seq<EntryModel>, i: int, j: int)
    requires
        0 <= i < list.len(),
        0 <= j < list.len(),
        forall|a: int, b: int|
            0 <= a < b < list.len() ==> !same_place(
                (#[trigger] list[a]).worktree.path,
                (#[trigger] list[b]).worktree.path,
            ),
        loaded(cwd, list)[i].is_current,
        loaded(cwd, list)[j].is_current,
    ensures
        i == j,
{
    law_only_one_place_is_stood_in(cwd, list, i, j);
}

/// Rows start out without a status, and the main worktree is marked as such.
pub proof fn law_rows_start_without_a_status(cwd: Seq<u8>, list: Seq<EntryModel>)
    requires
        list.len() > 0,
    ensures
        loaded(cwd, list).len() == list.len(),
        loaded(cwd, list)[0].is_main,
        forall|i: int| 0 <= i < list.len() ==> (#[trigger] loaded(cwd, list)[i]).note is None,
{
}

} // verus!
