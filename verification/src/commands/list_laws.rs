//! What `gwx list` prints, column by column.

use vstd::prelude::*;

use crate::commands::clean_laws::{blank_between, stands_at};
use crate::commands::list::{
    entry_models, entry_names, header_line, note, opens_picker, row_line, run, standing, stood_in,
    wants_text, Entry, ListArgs, NAME_HEADER,
};
use crate::git::Worktree;
use crate::path::{lossy, parts, within, FilePath};
use crate::text::{column_width, joined, padded, readings};
use crate::text_laws::{all_blank, is_widest, lemma_widest_is_the_width};
use crate::tui::picker::should_pick;
use crate::tui::status::{flag_words, flags};

verus! {

/// Flags are accepted as they are given, unless the path listing is asked to
/// leave out the labels that it does not have.
pub proof fn law_which_flags_go_together(
    paths: bool,
    plain: bool,
    no_header: bool,
    r: Option<ListArgs>,
)
    requires
        call_ensures(ListArgs::new, (paths, plain, no_header), r),
    ensures
        r is None <==> paths && no_header,
        r matches Some(args) ==> args.paths == paths && args.plain == plain && args.no_header
            == no_header,
{
}

/// Any flag asks for text. The picker opens exactly where none does, there is a
/// terminal, and there are at least two worktrees.
pub proof fn law_when_the_picker_opens(
    args: &ListArgs,
    terminal: bool,
    worktrees: usize,
    text: bool,
    opens: bool,
    worth: bool,
)
    requires
        call_ensures(wants_text, (args,), text),
        call_ensures(opens_picker, (args, terminal, worktrees), opens),
        call_ensures(should_pick, (terminal, worktrees), worth),
    ensures
        text <==> args.paths || args.plain || args.no_header,
        worth <==> terminal && worktrees >= 2,
        opens <==> !args.paths && !args.plain && !args.no_header && terminal && worktrees >= 2,
{
}

/// One for yes, none for no.
pub open spec fn one(yes: bool) -> int {
    if yes {
        1
    } else {
        0
    }
}

/// Each word is there exactly when git says so of the worktree, and they come
/// in this order.
pub proof fn law_every_flag_is_repeated(wt: &Worktree, r: Vec<String>)
    requires
        call_ensures(flags, (wt,), r),
    ensures
        r@.len() == one(wt.bare) + one(wt.detached) + one(wt.locked) + one(wt.prunable),
        wt.bare ==> r@[0]@ == "bare"@,
        wt.detached ==> r@[one(wt.bare)]@ == "detached"@,
        wt.locked ==> r@[one(wt.bare) + one(wt.detached)]@ == "locked"@,
        wt.prunable ==> r@[one(wt.bare) + one(wt.detached) + one(wt.locked)]@ == "broken"@,
{
    let words = readings(r@);
    assert(words.len() == r@.len());
    if wt.bare {
        assert(words[0] == r@[0]@);
    }
    if wt.detached {
        assert(words[one(wt.bare)] == r@[one(wt.bare)]@);
    }
    if wt.locked {
        assert(words[one(wt.bare) + one(wt.detached)] == r@[one(wt.bare) + one(wt.detached)]@);
    }
    if wt.prunable {
        let k = one(wt.bare) + one(wt.detached) + one(wt.locked);
        assert(words[k] == r@[k]@);
    }
}

/// What is said of a worktree stands in brackets, the words with a comma between
/// them; of one that git says nothing about, nothing is said.
pub proof fn law_flags_are_put_in_brackets(wt: &Worktree, words: Vec<String>, r: String)
    requires
        call_ensures(flags, (wt,), words),
        call_ensures(note, (wt,), r),
    ensures
        words@.len() == 0 ==> r@.len() == 0,
        words@.len() == 1 ==> r@ == " ("@ + words@[0]@ + ")"@,
        words@.len() == 2 ==> r@ == " ("@ + (words@[0]@ + ", "@ + words@[1]@) + ")"@,
        words@.len() == 3 ==> r@ == " ("@ + (words@[0]@ + ", "@ + words@[1]@ + ", "@
            + words@[2]@) + ")"@,
        words@.len() == 4 ==> r@ == " ("@ + (words@[0]@ + ", "@ + words@[1]@ + ", "@ + words@[2]@
            + ", "@ + words@[3]@) + ")"@,
{
    let all = readings(words@);
    reveal_strlit("");
    assert(all.len() == words@.len());
    assert(all == flag_words(wt@));
    reveal_with_fuel(joined, 5);
    if words@.len() > 0 {
        assert(all[0] == words@[0]@);
    }
    if words@.len() > 1 {
        assert(all[1] == words@[1]@);
    }
    if words@.len() > 2 {
        assert(all[2] == words@[2]@);
    }
    if words@.len() > 3 {
        assert(all[3] == words@[3]@);
    }
}

/// The marked worktree holds the directory, and lies within every other that
/// holds it.
pub proof fn law_the_innermost_worktree_is_marked(
    cwd: &FilePath,
    entries: &Vec<Entry>,
    r: Vec<bool>,
    i: int,
)
    requires
        call_ensures(standing, (cwd, entries), r),
        0 <= i < entries@.len(),
    ensures
        r@.len() == entries@.len(),
        r@[i] <==> within(cwd.bytes@, entries@[i].worktree.path.bytes@) && forall|j: int|
            0 <= j < entries@.len() && within(
                cwd.bytes@,
                (#[trigger] entries@[j]).worktree.path.bytes@,
            ) ==> within(entries@[i].worktree.path.bytes@, entries@[j].worktree.path.bytes@),
{
    let list = entry_models(entries@);
    let here = parts(cwd@);
    let a = parts(entries@[i].worktree.path@);
    assert(list[i] == entries@[i]@);
    if r@[i] {
        assert forall|j: int|
            0 <= j < entries@.len() && within(
                cwd.bytes@,
                (#[trigger] entries@[j]).worktree.path.bytes@,
            ) implies within(
            entries@[i].worktree.path.bytes@,
            entries@[j].worktree.path.bytes@,
        ) by {
            assert(list[j] == entries@[j]@);
            let b = parts(entries@[j].worktree.path@);
            assert(a == here.subrange(0, a.len() as int));
            assert(b == here.subrange(0, b.len() as int));
            assert(b =~= a.subrange(0, b.len() as int));
        }
    }
    if within(cwd.bytes@, entries@[i].worktree.path.bytes@) && forall|j: int|
        0 <= j < entries@.len() && within(
            cwd.bytes@,
            (#[trigger] entries@[j]).worktree.path.bytes@,
        ) ==> within(entries@[i].worktree.path.bytes@, entries@[j].worktree.path.bytes@) {
        assert forall|j: int|
            0 <= j < list.len() && within(cwd@, (#[trigger] list[j]).worktree.path) implies parts(
            list[j].worktree.path,
        ).len() <= a.len() by {
            assert(list[j] == entries@[j]@);
            assert(within(entries@[i].worktree.path@, entries@[j].worktree.path@));
        }
        assert(stood_in(cwd@, list, i));
    }
}

/// One line of the table: the marker, the name in its column, the commit, and
/// the path with whatever is said of the worktree right behind it.
pub open spec fn a_row(
    line: Seq<char>,
    marker: Seq<char>,
    name: Seq<char>,
    name_width: int,
    head: Seq<char>,
    path: Seq<char>,
    said: Seq<char>,
) -> bool {
    let second = 2 + name_width + 2;
    let third = second + head.len() + 2;
    &&& marker.len() == 2
    &&& line.len() == third + path.len() + said.len()
    &&& stands_at(line, 0, marker)
    &&& stands_at(line, 2, name)
    &&& blank_between(line, 2 + name.len() as int, second)
    &&& stands_at(line, second, head)
    &&& blank_between(line, second + head.len(), third)
    &&& stands_at(line, third, path)
    &&& stands_at(line, third + path.len(), said)
}

/// Parts put together in that order make such a line.
pub proof fn lemma_a_row(
    line: Seq<char>,
    marker: Seq<char>,
    name: Seq<char>,
    name_width: nat,
    head: Seq<char>,
    path: Seq<char>,
    said: Seq<char>,
)
    requires
        line == marker + padded(name, name_width) + "  "@ + head + "  "@ + path + said,
        marker.len() == 2,
        name.len() <= name_width,
    ensures
        a_row(line, marker, name, name_width as int, head, path, said),
{
    reveal_strlit("  ");
    let second = 2 + name_width as int + 2;
    let third = second + head.len() + 2;
    assert(line.subrange(0, 2) =~= marker);
    assert(line.subrange(2, 2 + name.len() as int) =~= name);
    assert(all_blank(line.subrange(2 + name.len() as int, second)));
    assert(line.subrange(second, second + head.len()) =~= head);
    assert(all_blank(line.subrange(second + head.len(), third)));
    assert(line.subrange(third, third + path.len()) =~= path);
    assert(line.subrange(third + path.len(), third + path.len() + said.len()) =~= said);
}

/// The table is a line of labels, unless they are left out, and one line for
/// each worktree: the star where you stand and nowhere else, its name, its
/// commit, its path and what git says of it. Where you stand decides nothing but
/// the marker.
pub proof fn law_every_worktree_has_its_line(
    args: &ListArgs,
    cwd: &FilePath,
    entries: &Vec<Entry>,
    r: Vec<String>,
    name_width: int,
    i: int,
    marks: Vec<bool>,
    said: String,
)
    requires
        call_ensures(run, (args, cwd, entries), r),
        !args.paths,
        0 <= i < entries@.len(),
        is_widest(name_width, entry_names(entry_models(entries@)), "WORKTREE"@),
        call_ensures(standing, (cwd, entries), marks),
        call_ensures(note, (&entries@[i].worktree,), said),
    ensures
        r@.len() == entries@.len() + one(!args.no_header),
        !args.no_header ==> a_row(
            r@[0]@,
            "  "@,
            "WORKTREE"@,
            name_width,
            "HEAD   "@,
            "PATH"@,
            Seq::empty(),
        ),
        a_row(
            r@[i + one(!args.no_header)]@,
            if marks@[i] {
                "* "@
            } else {
                "  "@
            },
            entries@[i].name@,
            name_width,
            entries@[i].head@,
            lossy(entries@[i].worktree.path.bytes@),
            said@,
        ),
{
    let list = entry_models(entries@);
    let top = one(!args.no_header);
    lemma_widest_is_the_width(name_width, entry_names(list), "WORKTREE"@);
    reveal_strlit("  ");
    reveal_strlit("* ");
    let lines = readings(r@);
    assert(lines.len() == r@.len());
    assert(list[i] == entries@[i]@);
    assert(entry_names(list)[i] == entries@[i].name@);
    assert(entry_names(list)[i].len() <= name_width);
    assert(lines[i + top] == r@[i + top]@);
    let line = row_line(list[i], stood_in(cwd@, list, i), name_width as nat);
    assert(lines[i + top] == line);
    lemma_a_row(
        line,
        if marks@[i] {
            "* "@
        } else {
            "  "@
        },
        entries@[i].name@,
        name_width as nat,
        entries@[i].head@,
        lossy(entries@[i].worktree.path@),
        said@,
    );
    if !args.no_header {
        assert(lines[0] == r@[0]@);
        let labels = header_line(name_width as nat);
        assert(labels =~= labels + Seq::<char>::empty());
        lemma_a_row(
            labels,
            "  "@,
            "WORKTREE"@,
            name_width as nat,
            "HEAD   "@,
            "PATH"@,
            Seq::empty(),
        );
    }
}

/// The same worktrees listed from two places give the same lines, but for the
/// two characters of the marker.
pub proof fn law_where_you_stand_decides_only_the_marker(
    args: &ListArgs,
    here: &FilePath,
    there: &FilePath,
    entries: &Vec<Entry>,
    r: Vec<String>,
    s: Vec<String>,
    i: int,
)
    requires
        call_ensures(run, (args, here, entries), r),
        call_ensures(run, (args, there, entries), s),
        0 <= i < r@.len(),
    ensures
        r@.len() == s@.len(),
        r@[i]@.len() == s@[i]@.len(),
        args.paths ==> r@[i]@ == s@[i]@,
        !args.paths ==> r@[i]@.skip(2) == s@[i]@.skip(2),
{
    reveal_strlit("  ");
    reveal_strlit("* ");
    let list = entry_models(entries@);
    assert(readings(r@).len() == r@.len());
    assert(readings(s@).len() == s@.len());
    assert(readings(r@)[i] == r@[i]@);
    assert(readings(s@)[i] == s@[i]@);
    if !args.paths {
        let top = one(!args.no_header);
        if i >= top {
            let width = column_width(entry_names(list), NAME_HEADER@);
            let a = row_line(list[i - top], stood_in(here@, list, i - top), width);
            let b = row_line(list[i - top], stood_in(there@, list, i - top), width);
            assert(r@[i]@ == a);
            assert(s@[i]@ == b);
            assert(a.skip(2) =~= b.skip(2));
        }
    }
}

/// Without worktrees there is no table at all, labels or not.
pub proof fn law_no_worktrees_no_table(
    args: &ListArgs,
    cwd: &FilePath,
    entries: &Vec<Entry>,
    r: Vec<String>,
)
    requires
        call_ensures(run, (args, cwd, entries), r),
        entries@.len() == 0,
    ensures
        r@.len() == 0,
{
    assert(readings(r@).len() == r@.len());
    assert(entry_models(entries@).len() == 0);
}

/// The path listing is the paths and nothing else, whatever the other flags and
/// wherever you stand.
pub proof fn law_the_path_listing(
    args: &ListArgs,
    cwd: &FilePath,
    entries: &Vec<Entry>,
    r: Vec<String>,
)
    requires
        call_ensures(run, (args, cwd, entries), r),
        args.paths,
    ensures
        r@.len() == entries@.len(),
        forall|i: int|
            0 <= i < r@.len() ==> (#[trigger] r@[i])@ == lossy(
                entries@[i].worktree.path.bytes@,
            ),
{
    let lines = readings(r@);
    assert(lines.len() == r@.len());
    assert forall|i: int| 0 <= i < r@.len() implies (#[trigger] r@[i])@ == lossy(
        entries@[i].worktree.path.bytes@,
    ) by {
        assert(lines[i] == r@[i]@);
        assert(entry_models(entries@)[i] == entries@[i]@);
    }
}

} // verus!
