//! `gwx list` — show every worktree of the repository.
//!
//! In a terminal this is the interactive picker; `--plain` and `--paths` are
//! the ways to ask for text a script can read.

use vstd::prelude::*;
use vstd::string::*;

use crate::git::{Worktree, WorktreeModel};
use crate::path::{lossy, parts, same_place, within, FilePath};
use crate::text::{column_width, join, joined, pad, padded, readings, widest};
use crate::tui::picker::should_pick;
use crate::tui::status::{flag_words, flags};

verus! {

/// Column labels, the same words the picker uses.
pub const NAME_HEADER: &'static str = "WORKTREE";

pub const HEAD_HEADER: &'static str = "HEAD   ";

pub const PATH_HEADER: &'static str = "PATH";

/// The flags of `gwx list`.
#[derive(Debug, Clone, Copy)]
pub struct ListArgs {
    /// One path per line, and nothing else.
    pub paths: bool,
    /// The table, even in a terminal.
    pub plain: bool,
    /// The table without its column labels.
    pub no_header: bool,
}

impl ListArgs {
    /// Puts the flags together, unless they contradict each other: there are
    /// no columns to label in the path listing.
    pub fn new(paths: bool, plain: bool, no_header: bool) -> (r: Option<ListArgs>)
        ensures
            r == if paths && no_header {
                None::<ListArgs>
            } else {
                Some(ListArgs { paths, plain, no_header })
            },
    {
        if paths && no_header {
            None
        } else {
            Some(ListArgs { paths, plain, no_header })
        }
    }
}

/// Whether the flags ask for text.
pub open spec fn asks_for_text(args: ListArgs) -> bool {
    args.paths || args.plain || args.no_header
}

/// Whether the flags asked for text rather than the picker.
///
/// `--no-header` belongs here for the same reason as the other two: it shapes
/// a printed table, and the picker draws a header no flag of `list` controls.
/// Left out, it would be accepted and then silently ignored.
pub fn wants_text(args: &ListArgs) -> (r: bool)
    ensures
        r == asks_for_text(*args),
{
    args.paths || args.plain || args.no_header
}

/// Whether the command opens the picker instead of printing: where nothing asks
/// for text, there is a terminal to draw on, and there is more than one worktree
/// to pick from.
pub fn opens_picker(args: &ListArgs, terminal: bool, worktrees: usize) -> (r: bool)
    ensures
        r == (!asks_for_text(*args) && terminal && worktrees > 1),
{
    !wants_text(args) && should_pick(terminal, worktrees)
}

/// What is said about a worktree behind its path.
pub open spec fn note_text(worktree: WorktreeModel) -> Seq<char> {
    if flag_words(worktree).len() == 0 {
        ""@
    } else {
        " ("@ + joined(flag_words(worktree), ", "@) + ")"@
    }
}

/// Says what git says about a worktree, in brackets.
pub fn note(wt: &Worktree) -> (r: String)
    ensures
        r@ == note_text(wt@),
{
    let notes = flags(wt);
    assert(readings(notes@).len() == notes@.len());
    if notes.len() == 0 {
        "".to_string()
    } else {
        " (".to_string().concat(join(&notes, ", ").as_str()).concat(")")
    }
}

/// A worktree with the names it goes by.
#[derive(Debug)]
pub struct Entry {
    pub worktree: Worktree,
    /// What the worktree is called.
    pub name: String,
    /// The short id of its commit.
    pub head: String,
}

/// An entry as contracts speak of it.
pub struct EntryModel {
    pub worktree: WorktreeModel,
    pub name: Seq<char>,
    pub head: Seq<char>,
}

impl View for Entry {
    type V = EntryModel;

    open spec fn view(&self) -> EntryModel {
        EntryModel { worktree: self.worktree@, name: self.name@, head: self.head@ }
    }
}

/// What the entries of a list are.
pub open spec fn entry_models(list: Seq<Entry>) -> Seq<EntryModel> {
    list.map_values(|e: Entry| e@)
}

/// What each entry is called.
pub open spec fn entry_names(list: Seq<EntryModel>) -> Seq<Seq<char>> {
    list.map_values(|e: EntryModel| e.name)
}

/// The column labels of the table.
pub open spec fn header_line(name_width: nat) -> Seq<char> {
    "  "@ + padded(NAME_HEADER@, name_width) + "  "@ + HEAD_HEADER@ + "  "@ + PATH_HEADER@
}

/// The command was started in the worktree at `i`: the worktree holds the
/// directory, and no other that holds it lies deeper. A worktree may well lie
/// inside another.
pub open spec fn stood_in(cwd: Seq<u8>, list: Seq<EntryModel>, i: int) -> bool {
    &&& within(cwd, list[i].worktree.path)
    &&& forall|j: int|
        0 <= j < list.len() && within(cwd, (#[trigger] list[j]).worktree.path) ==> parts(
            list[j].worktree.path,
        ).len() <= parts(list[i].worktree.path).len()
}

/// One row of the table. The star marks the worktree the command was started
/// in.
pub open spec fn row_line(entry: EntryModel, current: bool, name_width: nat) -> Seq<char> {
    let path = entry.worktree.path;
    let marker = if current {
        "* "@
    } else {
        "  "@
    };
    marker + padded(entry.name, name_width) + "  "@ + entry.head + "  "@ + lossy(path) + note_text(
        entry.worktree,
    )
}

/// The text `gwx list` prints.
pub open spec fn listing(args: ListArgs, cwd: Seq<u8>, list: Seq<EntryModel>) -> Seq<Seq<char>> {
    let name_width = column_width(entry_names(list), NAME_HEADER@);
    if args.paths {
        list.map_values(|e: EntryModel| lossy(e.worktree.path))
    } else if list.len() == 0 {
        Seq::empty()
    } else {
        (if args.no_header {
            Seq::empty()
        } else {
            seq![header_line(name_width)]
        }) + Seq::new(
            list.len(),
            |i: int| row_line(list[i], stood_in(cwd, list, i), name_width),
        )
    }
}

fn names_of(list: &Vec<Entry>) -> (r: Vec<String>)
    ensures
        readings(r@) == entry_names(entry_models(list@)),
{
    let mut r: Vec<String> = Vec::new();
    for i in 0..list.len()
        invariant
            r@.len() == i,
            forall|j: int| 0 <= j < i ==> (#[trigger] r@[j])@ == list@[j].name@,
    {
        r.push(list[i].name.clone());
    }
    assert(readings(r@) =~= entry_names(entry_models(list@)));
    r
}

/// How deep the worktree the command was started in lies, and zero where it
/// was started in none.
fn innermost(cwd: &FilePath, entries: &Vec<Entry>) -> (r: usize)
    ensures
        forall|j: int|
            0 <= j < entries@.len() && within(cwd@, (#[trigger] entries@[j]).worktree.path@)
                ==> parts(entries@[j].worktree.path@).len() <= r,
        r == 0 || exists|j: int|
            0 <= j < entries@.len() && within(cwd@, (#[trigger] entries@[j]).worktree.path@)
                && parts(entries@[j].worktree.path@).len() == r,
{
    let mut deepest: usize = 0;
    for i in 0..entries.len()
        invariant
            forall|j: int|
                0 <= j < i && within(cwd@, (#[trigger] entries@[j]).worktree.path@) ==> parts(
                    entries@[j].worktree.path@,
                ).len() <= deepest,
            deepest == 0 || exists|j: int|
                0 <= j < i && within(cwd@, (#[trigger] entries@[j]).worktree.path@) && parts(
                    entries@[j].worktree.path@,
                ).len() == deepest,
    {
        let path = &entries[i].worktree.path;
        if cwd.starts_with(path) {
            let depth: usize = path.depth();
            if depth > deepest {
                deepest = depth;
                assert(parts(entries@[i as int].worktree.path@).len() == deepest);
            }
        }
    }
    deepest
}

/// Finds out for every entry whether the command was started in it.
pub fn standing(cwd: &FilePath, entries: &Vec<Entry>) -> (r: Vec<bool>)
    ensures
        r@.len() == entries@.len(),
        forall|i: int|
            0 <= i < r@.len() ==> #[trigger] r@[i] == stood_in(cwd@, entry_models(entries@), i),
{
    let ghost list = entry_models(entries@);
    let deepest: usize = innermost(cwd, entries);
    let mut r: Vec<bool> = Vec::new();
    for i in 0..entries.len()
        invariant
            list == entry_models(entries@),
            r@.len() == i,
            forall|j: int|
                0 <= j < entries@.len() && within(cwd@, (#[trigger] entries@[j]).worktree.path@)
                    ==> parts(entries@[j].worktree.path@).len() <= deepest,
            deepest == 0 || exists|j: int|
                0 <= j < entries@.len() && within(cwd@, (#[trigger] entries@[j]).worktree.path@)
                    && parts(entries@[j].worktree.path@).len() == deepest,
            forall|j: int| 0 <= j < i ==> #[trigger] r@[j] == stood_in(cwd@, list, j),
    {
        let path = &entries[i].worktree.path;
        let here = cwd.starts_with(path) && path.depth() == deepest;
        proof {
            assert(list[i as int] == entries@[i as int]@);
            if here {
                assert forall|j: int|
                    0 <= j < list.len() && within(
                        cwd@,
                        (#[trigger] list[j]).worktree.path,
                    ) implies parts(list[j].worktree.path).len() <= parts(
                    list[i as int].worktree.path,
                ).len() by {
                    assert(list[j] == entries@[j]@);
                }
            } else if within(cwd@, path@) {
                let j = choose|j: int|
                    0 <= j < entries@.len() && within(
                        cwd@,
                        (#[trigger] entries@[j]).worktree.path@,
                    ) && parts(entries@[j].worktree.path@).len() == deepest;
                assert(parts(path@).len() < deepest);
                assert(list[j] == entries@[j]@);
            }
        }
        r.push(here);
    }
    r
}

fn row_of(entry: &Entry, current: bool, name_width: usize) -> (r: String)
    ensures
        r@ == row_line(entry@, current, name_width as nat),
{
    let marker = if current {
        "* "
    } else {
        "  "
    };
    marker.to_string().concat(pad(entry.name.as_str(), name_width).as_str()).concat("  ").concat(
        entry.head.as_str(),
    ).concat("  ").concat(entry.worktree.path.display().as_str()).concat(
        note(&entry.worktree).as_str(),
    )
}

/// The lines `gwx list` prints when it prints. The picker labels its columns,
/// and this is the same table without the terminal to draw it in.
pub fn run(args: &ListArgs, cwd: &FilePath, entries: &Vec<Entry>) -> (r: Vec<String>)
    ensures
        readings(r@) == listing(*args, cwd@, entry_models(entries@)),
{
    let mut r: Vec<String> = Vec::new();
    let ghost want = listing(*args, cwd@, entry_models(entries@));
    if args.paths {
        for i in 0..entries.len()
            invariant
                args.paths,
                want == listing(*args, cwd@, entry_models(entries@)),
                r@.len() == i,
                forall|j: int| 0 <= j < i ==> (#[trigger] r@[j])@ == want[j],
        {
            r.push(entries[i].worktree.path.display());
        }
        assert(readings(r@) =~= want);
        return r;
    }
    if entries.len() == 0 {
        assert(readings(r@) =~= want);
        return r;
    }
    let name_width: usize = widest(&names_of(entries), NAME_HEADER);
    if !args.no_header {
        r.push(
            "  ".to_string().concat(pad(NAME_HEADER, name_width).as_str()).concat("  ").concat(
                HEAD_HEADER,
            ).concat("  ").concat(PATH_HEADER),
        );
    }
    let marks = standing(cwd, entries);
    let ghost top = r@.len() as int;
    for i in 0..entries.len()
        invariant
            !args.paths,
            entries@.len() > 0,
            marks@.len() == entries@.len(),
            forall|j: int|
                0 <= j < marks@.len() ==> #[trigger] marks@[j] == stood_in(
                    cwd@,
                    entry_models(entries@),
                    j,
                ),
            want == listing(*args, cwd@, entry_models(entries@)),
            name_width == column_width(entry_names(entry_models(entries@)), NAME_HEADER@),
            top == if args.no_header {
                0int
            } else {
                1int
            },
            r@.len() == top + i,
            forall|j: int| 0 <= j < top + i ==> (#[trigger] r@[j])@ == want[j],
    {
        r.push(row_of(&entries[i], marks[i], name_width));
        assert(entry_models(entries@)[i as int] == entries@[i as int]@);
        assert(want[top + i] == r@[top + i]@);
    }
    assert(readings(r@) =~= want);
    r
}

/// Nobody stands in two places: entries the command was started in are the same
/// place.
pub proof fn law_only_one_place_is_stood_in(
    cwd: Seq<u8>,
    list: Seq<EntryModel>,
    i: int,
    j: int,
)
    requires
        0 <= i < list.len(),
        0 <= j < list.len(),
        stood_in(cwd, list, i),
        stood_in(cwd, list, j),
    ensures
        same_place(list[i].worktree.path, list[j].worktree.path),
{
    let a = parts(list[i].worktree.path);
    let b = parts(list[j].worktree.path);
    assert(a.len() == b.len());
    assert(a == parts(cwd).subrange(0, a.len() as int));
    assert(b == parts(cwd).subrange(0, b.len() as int));
}

/// Wherever some worktree holds the directory the command was started in, one
/// of them is the one it was started in.
pub proof fn law_some_place_is_stood_in(cwd: Seq<u8>, list: Seq<EntryModel>, k: int)
    requires
        0 <= k < list.len(),
        within(cwd, list[k].worktree.path),
    ensures
        exists|i: int| 0 <= i < list.len() && stood_in(cwd, list, i),
    decreases parts(cwd).len() - parts(list[k].worktree.path).len(),
{
    if !stood_in(cwd, list, k) {
        let j = choose|j: int|
            0 <= j < list.len() && within(cwd, (#[trigger] list[j]).worktree.path) && parts(
                list[j].worktree.path,
            ).len() > parts(list[k].worktree.path).len();
        law_some_place_is_stood_in(cwd, list, j);
    }
}

/// `--paths` prints one line per worktree, each nothing but its path.
pub proof fn law_paths_are_one_per_line(args: ListArgs, cwd: Seq<u8>, list: Seq<EntryModel>)
    requires
        args.paths,
    ensures
        listing(args, cwd, list).len() == list.len(),
        forall|i: int|
            0 <= i < list.len() ==> #[trigger] listing(args, cwd, list)[i] == lossy(
                list[i].worktree.path,
            ),
{
}

/// `--no-header` prints the table without its first line, and changes no row.
pub proof fn law_no_header_drops_only_the_labels(
    args: ListArgs,
    cwd: Seq<u8>,
    list: Seq<EntryModel>,
)
    requires
        !args.paths,
        list.len() > 0,
    ensures
        listing(ListArgs { no_header: true, ..args }, cwd, list) == listing(
            ListArgs { no_header: false, ..args },
            cwd,
            list,
        ).drop_first(),
{
    assert(listing(ListArgs { no_header: true, ..args }, cwd, list) =~= listing(
        ListArgs { no_header: false, ..args },
        cwd,
        list,
    ).drop_first());
}

/// `--plain` prints the very table that is printed where no picker opens.
pub proof fn law_plain_is_the_same_table(args: ListArgs, cwd: Seq<u8>, list: Seq<EntryModel>)
    ensures
        listing(ListArgs { plain: true, ..args }, cwd, list) == listing(
            ListArgs { plain: false, ..args },
            cwd,
            list,
        ),
{
}

} // verus!
