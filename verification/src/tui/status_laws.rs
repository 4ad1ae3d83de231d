//! What the rows of the list are made of, and how their status comes in.

use vstd::prelude::*;

use crate::commands::list::{entry_models, standing, Entry};
use crate::commands::list_laws::one;
use crate::git::Merged;
use crate::path::same_place;
use crate::path::FilePath;
use crate::text::{joined, readings};
use crate::tui::picker::{item_models, Item, ItemModel};
use crate::tui::status::{
    flags, load, note, note_readings, noted, status_jobs, status_words, Arrival, StatusFeed,
    StatusJob,
};

verus! {

/// The status says `dirty` exactly when git reported uncommitted changes, then
/// `merged` exactly when the branch is merged in any way and is not that of the
/// main worktree, then what git says of the worktree: these words, with a comma
/// between them.
pub proof fn law_what_the_status_says(
    dirty: Option<bool>,
    merged: Option<Merged>,
    is_main: bool,
    flags: &Vec<String>,
    r: String,
)
    requires
        call_ensures(note, (dirty, merged, is_main, flags), r),
    ensures
        exists|words: Seq<Seq<char>>|
            {
                let changed = dirty == Some(true);
                let finished = !is_main && (merged == Some(Merged::Commits) || merged == Some(
                    Merged::Changes,
                ) || merged == Some(Merged::New));
                &&& r@ == #[trigger] joined(words, ", "@)
                &&& words.len() == one(changed) + one(finished) + flags@.len()
                &&& changed ==> words[0] == "dirty"@
                &&& finished ==> words[one(changed)] == "merged"@
                &&& forall|i: int|
                    0 <= i < flags@.len() ==> words[one(changed) + one(finished) + i] == (
                    #[trigger] flags@[i])@
            },
{
    let all = readings(flags@);
    let words = status_words(dirty, merged, is_main, all);
    let changed = dirty == Some(true);
    let finished = !is_main && (merged == Some(Merged::Commits) || merged == Some(Merged::Changes)
        || merged == Some(Merged::New));
    assert(merged is Some ==> merged->0 is Commits || merged->0 is Changes || merged->0 is New
        || merged->0 is No);
    assert(finished <==> !is_main && merged is Some && merged != Some(Merged::No));
    assert(all.len() == flags@.len());
    assert forall|i: int| 0 <= i < flags@.len() implies words[one(changed) + one(finished) + i] == (
    #[trigger] flags@[i])@ by {
        assert(all[i] == flags@[i]@);
    }
    assert(r@ == joined(words, ", "@));
}

/// Words joined: nothing for none, the word for one, and behind a separator for
/// one more.
pub proof fn law_how_words_are_joined(words: Seq<Seq<char>>, between: Seq<char>, more: Seq<char>)
    ensures
        joined(Seq::empty(), between).len() == 0,
        joined(seq![more], between) == more,
        words.len() > 0 ==> joined(words.push(more), between) == joined(words, between) + between
            + more,
{
    assert(words.push(more).drop_last() =~= words);
    assert(words.push(more).last() == more);
}

/// Every worktree gets a row with its own name, commit and path, no status yet,
/// the mark where you stand, and the main one told apart by its place.
pub proof fn law_every_worktree_gets_its_row(
    cwd: &FilePath,
    entries: &Vec<Entry>,
    r: Vec<Item>,
    marks: Vec<bool>,
    i: int,
)
    requires
        call_ensures(load, (cwd, entries), r),
        call_ensures(standing, (cwd, entries), marks),
        0 <= i < entries@.len(),
    ensures
        r@.len() == entries@.len(),
        r@[i].name@ == entries@[i].name@,
        r@[i].head@ == entries@[i].head@,
        r@[i].path.bytes@ == entries@[i].worktree.path.bytes@,
        r@[i].worktree@ == entries@[i].worktree@,
        r@[i].note is None,
        r@[i].is_current == marks@[i],
        r@[i].is_main == same_place(
            entries@[i].worktree.path.bytes@,
            entries@[0].worktree.path.bytes@,
        ),
{
    let items = item_models(r@);
    let list = entry_models(entries@);
    assert(items.len() == r@.len());
    assert(items[i] == r@[i]@);
    assert(list[i] == entries@[i]@);
    assert(list[0] == entries@[0]@);
    assert(r@[i]@.note is None);
}

/// Every row gets a job of its own, which knows its place in the list, its path,
/// its branch, whether it is the main one, and its flags.
pub proof fn law_every_row_gets_its_job(items: &Vec<Item>, r: Vec<StatusJob>, i: int, words: Vec<String>)
    requires
        call_ensures(status_jobs, (items,), r),
        0 <= i < items@.len(),
        call_ensures(flags, (&items@[i].worktree,), words),
    ensures
        r@.len() == items@.len(),
        r@[i].index == i,
        r@[i].path.bytes@ == items@[i].path.bytes@,
        r@[i].is_main == items@[i].is_main,
        r@[i].branch is Some <==> items@[i].worktree.branch is Some,
        r@[i].branch is Some ==> r@[i].branch->0@ == items@[i].worktree.branch->0@,
        readings(r@[i].flags@) == readings(words@),
{
    let job = r@[i]@;
    assert(job.branch == items@[i]@.worktree.branch);
}

/// One note more in a delivery is written into its row, where there is one, over
/// anything that came before for it, and into no other.
pub proof fn law_one_note_more(
    items: Seq<ItemModel>,
    notes: Seq<(usize, Seq<char>)>,
    index: usize,
    text: Seq<char>,
    i: int,
)
    requires
        0 <= i < items.len(),
    ensures
        noted(items, Seq::empty()) == items,
        noted(items, notes.push((index, text))).len() == items.len(),
        noted(items, notes.push((index, text)))[i] == if i == index {
            ItemModel { note: Some(text), ..items[i] }
        } else {
            noted(items, notes)[i]
        },
{
    crate::tui::status::law_notes_change_only_notes(items, notes);
    assert(notes.push((index, text)).drop_last() =~= notes);
    assert(notes.push((index, text)).last() == (index, text));
}

/// A feed waits for the one delivery there is: it takes that in when it comes,
/// stops waiting when it came or never will, and has nothing to show otherwise.
pub proof fn law_how_the_feed_is_drained(
    feed: &mut StatusFeed,
    arrival: &Arrival,
    items: &mut Vec<Item>,
    r: bool,
    done: bool,
    fresh: StatusFeed,
)
    requires
        call_ensures(StatusFeed::drain, (feed, arrival, items), r),
        call_ensures(StatusFeed::is_done, (final(feed),), done),
        call_ensures(StatusFeed::new, (), fresh),
    ensures
        fresh.waiting,
        r <==> old(feed).waiting && arrival is Notes,
        done <==> !(old(feed).waiting && arrival is Empty),
        final(feed).waiting <==> old(feed).waiting && arrival is Empty,
        !r ==> item_models(final(items)@) == item_models(old(items)@),
        r ==> item_models(final(items)@) == noted(
            item_models(old(items)@),
            note_readings(arrival->Notes_0@),
        ),
{
}

} // verus!
