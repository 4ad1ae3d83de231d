//! The help line: which keys there are, and what they do right now.

use vstd::prelude::*;

use crate::text::count;
use crate::tui::picker::{Picker, PickerModel};

verus! {

/// One entry of the help line: the key, then what it does.
///
/// The key is drawn in reverse video, which gives the boundary between key and
/// label a shape rather than leaving it to whitespace. It reuses the attribute
/// the cursor row already uses, so it holds up on any colour theme.
#[derive(Debug)]
pub struct Hint {
    pub keys: Vec<&'static str>,
    pub label: &'static str,
    /// Dropped first when the terminal is too narrow for the full line.
    pub optional: bool,
}

/// An entry as contracts speak of it.
pub struct HintModel {
    pub keys: Seq<Seq<char>>,
    pub label: Seq<char>,
    pub optional: bool,
}

/// What the keys of an entry read.
pub open spec fn key_readings(keys: Seq<&'static str>) -> Seq<Seq<char>> {
    keys.map_values(|k: &'static str| k@)
}

impl View for Hint {
    type V = HintModel;

    open spec fn view(&self) -> HintModel {
        HintModel { keys: key_readings(self.keys@), label: self.label@, optional: self.optional }
    }
}

/// What the entries of a line are.
pub open spec fn hint_models(hints: Seq<Hint>) -> Seq<HintModel> {
    hints.map_values(|h: Hint| h@)
}

pub open spec fn hint(key: Seq<char>, label: Seq<char>, optional: bool) -> HintModel {
    HintModel { keys: seq![key], label, optional }
}

/// The entries while nothing is typed.
pub open spec fn idle_hints() -> Seq<HintModel> {
    seq![
        hint("up/down"@, "move"@, true),
        hint("enter"@, "cd"@, false),
        HintModel { keys: seq!["ctrl-d"@, "backspace"@], label: "delete"@, optional: false },
        hint("esc"@, "cancel"@, false),
    ]
}

/// The entries while a filter is typed, when Backspace edits it instead of
/// deleting.
pub open spec fn filtering_hints() -> Seq<HintModel> {
    seq![
        hint("up/down"@, "move"@, true),
        hint("enter"@, "cd"@, false),
        hint("ctrl-d"@, "delete"@, false),
        hint("backspace"@, "erase"@, false),
        hint("esc"@, "cancel"@, false),
    ]
}

/// The entries of the `gwx clean` screen.
pub open spec fn cleaning_hints() -> Seq<HintModel> {
    seq![
        hint("up/down"@, "move"@, false),
        hint("space"@, "toggle"@, false),
        hint("enter"@, "remove"@, false),
        hint("esc"@, "cancel"@, false),
    ]
}

/// An entry with one key.
fn one_key(key: &'static str, label: &'static str, optional: bool) -> (r: Hint)
    ensures
        r@ == hint(key@, label@, optional),
{
    let mut keys: Vec<&'static str> = Vec::new();
    keys.push(key);
    assert(key_readings(keys@) =~= seq![key@]);
    Hint { keys, label, optional }
}

/// The help line while nothing is typed.
///
/// Keys are spelled out: `bksp` is keycap shorthand, not something a help line
/// can assume its reader knows.
///
/// Everything here is plain ASCII on purpose — arrows and the return symbol
/// land in ranges that terminals disagree about, and U+25B6 in particular has
/// an emoji presentation that renders double width and shifts the whole row.
pub fn hints_idle() -> (r: Vec<Hint>)
    ensures
        hint_models(r@) == idle_hints(),
{
    let mut keys: Vec<&'static str> = Vec::new();
    keys.push("ctrl-d");
    keys.push("backspace");
    assert(key_readings(keys@) =~= seq!["ctrl-d"@, "backspace"@]);
    let mut r: Vec<Hint> = Vec::new();
    r.push(one_key("up/down", "move", true));
    r.push(one_key("enter", "cd", false));
    r.push(Hint { keys, label: "delete", optional: false });
    r.push(one_key("esc", "cancel", false));
    assert(hint_models(r@) =~= idle_hints());
    r
}

/// The help line while a filter is typed: Backspace edits it instead of
/// deleting.
pub fn hints_filtering() -> (r: Vec<Hint>)
    ensures
        hint_models(r@) == filtering_hints(),
{
    let mut r: Vec<Hint> = Vec::new();
    r.push(one_key("up/down", "move", true));
    r.push(one_key("enter", "cd", false));
    r.push(one_key("ctrl-d", "delete", false));
    r.push(one_key("backspace", "erase", false));
    r.push(one_key("esc", "cancel", false));
    assert(hint_models(r@) =~= filtering_hints());
    r
}

/// The help line for `gwx clean`.
///
/// Four keys, none of them optional: the line fits an eighty-column terminal
/// whole, so nothing here is a shortcut somebody has to be told about. Bulk
/// selection is deliberately absent — with a handful of worktrees, space is
/// enough, and the key that ticks everything is the one this screen should
/// think hardest before adding.
pub fn clean_hints() -> (r: Vec<Hint>)
    ensures
        hint_models(r@) == cleaning_hints(),
{
    let mut r: Vec<Hint> = Vec::new();
    r.push(one_key("up/down", "move", false));
    r.push(one_key("space", "toggle", false));
    r.push(one_key("enter", "remove", false));
    r.push(one_key("esc", "cancel", false));
    assert(hint_models(r@) =~= cleaning_hints());
    r
}

/// The entries matching what Backspace does right now.
pub open spec fn hints_of(picker: PickerModel) -> Seq<HintModel> {
    if picker.filter.len() == 0 {
        idle_hints()
    } else {
        filtering_hints()
    }
}

/// The hints matching what Backspace does right now.
pub fn hints_for(picker: &Picker) -> (r: Vec<Hint>)
    ensures
        hint_models(r@) == hints_of(picker@),
{
    if picker.filter.as_str().is_empty() {
        hints_idle()
    } else {
        hints_filtering()
    }
}

/// Columns a list of keys needs: each sits in a badge padded by one space on
/// either side.
pub open spec fn badges_width(keys: Seq<Seq<char>>) -> nat
    decreases keys.len(),
{
    if keys.len() == 0 {
        0
    } else {
        badges_width(keys.drop_last()) + keys.last().len() + 2
    }
}

/// Columns one entry needs: its badges, a space between neighbours, another
/// before the label, and the label.
pub open spec fn hint_width(hint: HintModel) -> nat {
    (badges_width(hint.keys) + (hint.keys.len() - 1) + 1 + hint.label.len()) as nat
}

/// Columns the entries themselves need.
pub open spec fn entries_width(hints: Seq<HintModel>) -> nat
    decreases hints.len(),
{
    if hints.len() == 0 {
        0
    } else {
        entries_width(hints.drop_last()) + hint_width(hints.last())
    }
}

/// Columns between `n` entries, two for each pair of neighbours.
pub open spec fn gaps_width(n: nat) -> nat {
    if n == 0 {
        0
    } else {
        ((n - 1) * 2) as nat
    }
}

/// Columns a set of entries needs.
pub open spec fn line_width(hints: Seq<HintModel>) -> nat {
    entries_width(hints) + gaps_width(hints.len())
}

/// Every entry names a key, and the line can be measured in machine integers.
pub open spec fn measurable(hints: Seq<HintModel>) -> bool {
    &&& forall|i: int| 0 <= i < hints.len() ==> (#[trigger] hints[i]).keys.len() > 0
    &&& line_width(hints) <= usize::MAX
}

/// Shorter lists are no wider.
proof fn lemma_badges_grow(keys: Seq<Seq<char>>, n: int)
    requires
        0 <= n <= keys.len(),
    ensures
        badges_width(keys.take(n)) <= badges_width(keys),
    decreases keys.len() - n,
{
    if n < keys.len() {
        lemma_badges_grow(keys, n + 1);
        assert(keys.take(n + 1).drop_last() =~= keys.take(n));
    } else {
        assert(keys.take(n) =~= keys);
    }
}

proof fn lemma_entries_grow(hints: Seq<HintModel>, n: int)
    requires
        0 <= n <= hints.len(),
    ensures
        entries_width(hints.take(n)) <= entries_width(hints),
    decreases hints.len() - n,
{
    if n < hints.len() {
        lemma_entries_grow(hints, n + 1);
        assert(hints.take(n + 1).drop_last() =~= hints.take(n));
    } else {
        assert(hints.take(n) =~= hints);
    }
}

/// Columns one hint needs, badges included.
fn width_of(hint: &Hint) -> (w: usize)
    requires
        hint.keys@.len() > 0,
        hint_width(hint@) <= usize::MAX,
    ensures
        w == hint_width(hint@),
{
    let mut w: usize = 0;
    let ghost keys = hint@.keys;
    assert(keys.len() == hint.keys@.len());
    for i in 0..hint.keys.len()
        invariant
            keys == hint@.keys,
            keys.len() == hint.keys@.len(),
            w == badges_width(keys.take(i as int)),
            badges_width(keys) <= usize::MAX,
    {
        proof {
            assert(keys.take(i + 1).drop_last() =~= keys.take(i as int));
            assert(keys[i as int] == hint.keys@[i as int]@);
            lemma_badges_grow(keys, i + 1);
        }
        w += count(hint.keys[i]) + 2;
    }
    assert(keys.take(keys.len() as int) =~= keys);
    w + (hint.keys.len() - 1) + 1 + count(hint.label)
}

/// Columns a set of hints needs, badges included.
pub fn hints_width(hints: &Vec<Hint>) -> (w: usize)
    requires
        measurable(hint_models(hints@)),
    ensures
        w == line_width(hint_models(hints@)),
{
    let mut w: usize = 0;
    let ghost all = hint_models(hints@);
    for i in 0..hints.len()
        invariant
            all == hint_models(hints@),
            measurable(all),
            w == entries_width(all.take(i as int)),
    {
        proof {
            assert(all[i as int] == hints@[i as int]@);
            assert(all.take(i + 1).drop_last() =~= all.take(i as int));
            lemma_entries_grow(all, i + 1);
        }
        w += width_of(&hints[i]);
    }
    assert(all.take(hints@.len() as int) =~= all);
    if hints.len() == 0 {
        w
    } else {
        w + (hints.len() - 1) * 2
    }
}

/// Where the first optional entry stands; past the end when there is none.
pub open spec fn first_optional(hints: Seq<HintModel>) -> int
    decreases hints.len(),
{
    if hints.len() == 0 || hints[0].optional {
        0
    } else {
        1 + first_optional(hints.drop_first())
    }
}

/// The entries left when optional ones are dropped, the first one first, until
/// the line fits or none is left to drop.
pub open spec fn fitting(hints: Seq<HintModel>, width: nat) -> Seq<HintModel>
    decreases hints.len(),
{
    if line_width(hints) > width && 0 <= first_optional(hints) < hints.len() {
        fitting(hints.remove(first_optional(hints)), width)
    } else {
        hints
    }
}

proof fn lemma_first_optional(hints: Seq<HintModel>)
    ensures
        0 <= first_optional(hints) <= hints.len(),
        first_optional(hints) < hints.len() ==> hints[first_optional(hints)].optional,
        forall|i: int| 0 <= i < first_optional(hints) ==> !(#[trigger] hints[i]).optional,
    decreases hints.len(),
{
    if hints.len() > 0 && !hints[0].optional {
        lemma_first_optional(hints.drop_first());
        assert forall|i: int| 0 <= i < first_optional(hints) implies !(
        #[trigger] hints[i]).optional by {
            if i > 0 {
                assert(hints.drop_first()[i - 1] == hints[i]);
            }
        }
    }
}

/// Without one entry, a line is narrower by that entry.
proof fn lemma_remove_entry(hints: Seq<HintModel>, i: int)
    requires
        0 <= i < hints.len(),
    ensures
        entries_width(hints.remove(i)) == entries_width(hints) - hint_width(hints[i]),
    decreases hints.len(),
{
    if i == hints.len() - 1 {
        assert(hints.remove(i) =~= hints.drop_last());
    } else {
        lemma_remove_entry(hints.drop_last(), i);
        assert(hints.remove(i).drop_last() =~= hints.drop_last().remove(i));
        assert(hints.remove(i).last() == hints.last());
    }
}

/// Drops optional hints until the line fits, rather than truncating mid-word.
pub fn hints_that_fit(hints: Vec<Hint>, width: usize) -> (r: Vec<Hint>)
    requires
        measurable(hint_models(hints@)),
    ensures
        hint_models(r@) == fitting(hint_models(hints@), width as nat),
        measurable(hint_models(r@)),
{
    let ghost want = fitting(hint_models(hints@), width as nat);
    let mut kept = hints;
    loop
        invariant
            measurable(hint_models(kept@)),
            fitting(hint_models(kept@), width as nat) == want,
        ensures
            hint_models(kept@) == want,
            measurable(hint_models(kept@)),
        decreases kept@.len(),
    {
        let ghost now = hint_models(kept@);
        proof {
            lemma_first_optional(now);
        }
        if hints_width(&kept) <= width {
            break ;
        }
        let mut index: usize = 0;
        while index < kept.len() && !kept[index].optional
            invariant
                now == hint_models(kept@),
                index <= kept.len(),
                forall|i: int| 0 <= i < index ==> !(#[trigger] now[i]).optional,
            decreases kept.len() - index,
        {
            assert(now[index as int] == kept@[index as int]@);
            index += 1;
        }
        if index == kept.len() {
            break ;
        }
        proof {
            assert(now[index as int] == kept@[index as int]@);
            assert(first_optional(now) == index);
            lemma_remove_entry(now, index as int);
        }
        kept.remove(index);
        assert(hint_models(kept@) =~= now.remove(index as int));
    }
    kept
}

/// Nothing is dropped from a line that fits.
pub proof fn law_a_line_that_fits_stays_whole(hints: Seq<HintModel>, width: nat)
    requires
        line_width(hints) <= width,
    ensures
        fitting(hints, width) == hints,
{
}

/// What is left fits, or holds nothing that may be dropped.
pub proof fn law_dropped_as_far_as_needed(hints: Seq<HintModel>, width: nat)
    ensures
        line_width(fitting(hints, width)) <= width || forall|i: int|
            0 <= i < fitting(hints, width).len() ==> !(#[trigger] fitting(
                hints,
                width,
            )[i]).optional,
    decreases hints.len(),
{
    lemma_first_optional(hints);
    if line_width(hints) > width && first_optional(hints) < hints.len() {
        let rest = hints.remove(first_optional(hints));
        law_dropped_as_far_as_needed(rest, width);
        assert(fitting(hints, width) == fitting(rest, width));
    } else {
        assert(fitting(hints, width) == hints);
    }
}

/// Entries that are not optional are never dropped, and nothing is added: with
/// the optional ones taken out, a line is the same before and after.
pub proof fn law_required_hints_survive(hints: Seq<HintModel>, width: nat)
    ensures
        fitting(hints, width).filter(|h: HintModel| !h.optional) == hints.filter(
            |h: HintModel| !h.optional,
        ),
        forall|i: int|
            0 <= i < fitting(hints, width).len() ==> hints.contains(
                #[trigger] fitting(hints, width)[i],
            ),
    decreases hints.len(),
{
    let required = |h: HintModel| !h.optional;
    lemma_first_optional(hints);
    let k = first_optional(hints);
    if line_width(hints) > width && k < hints.len() {
        let rest = hints.remove(k);
        law_required_hints_survive(rest, width);
        lemma_filter_remove(hints, k);
        assert forall|i: int| 0 <= i < fitting(hints, width).len() implies hints.contains(
            #[trigger] fitting(hints, width)[i],
        ) by {
            let h = fitting(hints, width)[i];
            assert(rest.contains(h));
            let j = choose|j: int| 0 <= j < rest.len() && rest[j] == h;
            assert(rest[j] == if j < k {
                hints[j]
            } else {
                hints[j + 1]
            });
        }
    }
}

proof fn lemma_filter_remove(hints: Seq<HintModel>, i: int)
    requires
        0 <= i < hints.len(),
        hints[i].optional,
    ensures
        hints.remove(i).filter(|h: HintModel| !h.optional) == hints.filter(
            |h: HintModel| !h.optional,
        ),
    decreases hints.len(),
{
    reveal(Seq::filter);
    let required = |h: HintModel| !h.optional;
    if i == hints.len() - 1 {
        assert(hints.remove(i) =~= hints.drop_last());
    } else {
        lemma_filter_remove(hints.drop_last(), i);
        assert(hints.remove(i).drop_last() =~= hints.drop_last().remove(i));
        assert(hints.remove(i).last() == hints.last());
    }
}

/// The help line says what Backspace will do: it stands with `delete` while
/// nothing is typed, and with `erase` — and not with `delete` — while there is
/// something to erase. The press that is swallowed right after the filter was
/// emptied is the one moment the line does not describe.
pub proof fn law_the_help_says_what_backspace_will_do(picker: PickerModel)
    requires
        picker.filter.len() > 0 || !picker.erasing,
    ensures
        picker.backspaced().1 == crate::tui::picker::Backspace::Delete ==> hints_of(picker)[2]
            == (HintModel {
            keys: seq!["ctrl-d"@, "backspace"@],
            label: "delete"@,
            optional: false,
        }),
        picker.backspaced().1 != crate::tui::picker::Backspace::Delete ==> hints_of(picker)[2]
            == hint("ctrl-d"@, "delete"@, false) && hints_of(picker)[3] == hint(
            "backspace"@,
            "erase"@,
            false,
        ),
{
}

/// How wide each help line is in full. All three fit an eighty-column
/// terminal whole.
pub proof fn law_help_lines_fit_eighty_columns()
    ensures
        line_width(idle_hints()) == 69,
        line_width(filtering_hints()) == 76,
        line_width(cleaning_hints()) == 60,
        measurable(idle_hints()),
        measurable(filtering_hints()),
        measurable(cleaning_hints()),
{
    reveal_strlit("up/down");
    reveal_strlit("move");
    reveal_strlit("enter");
    reveal_strlit("cd");
    reveal_strlit("ctrl-d");
    reveal_strlit("backspace");
    reveal_strlit("delete");
    reveal_strlit("erase");
    reveal_strlit("esc");
    reveal_strlit("cancel");
    reveal_strlit("space");
    reveal_strlit("toggle");
    reveal_strlit("remove");
    reveal_with_fuel(badges_width, 3);
    lemma_width_of_four(idle_hints());
    lemma_width_of_four(cleaning_hints());
    lemma_width_of_four(filtering_hints().drop_last());
    assert(filtering_hints().drop_last() =~= filtering_hints().take(4));
    assert(hint_width(idle_hints()[0]) == 14) by {
        assert(seq!["up/down"@].drop_last() =~= Seq::<Seq<char>>::empty());
    }
    assert(hint_width(idle_hints()[2]) == 27) by {
        let keys = seq!["ctrl-d"@, "backspace"@];
        assert(keys.drop_last() =~= seq!["ctrl-d"@]);
        assert(seq!["ctrl-d"@].drop_last() =~= Seq::<Seq<char>>::empty());
    }
}

/// The width of four entries is that of each of them.
proof fn lemma_width_of_four(hints: Seq<HintModel>)
    requires
        hints.len() == 4,
    ensures
        entries_width(hints) == hint_width(hints[0]) + hint_width(hints[1]) + hint_width(hints[2])
            + hint_width(hints[3]),
{
    let three = hints.drop_last();
    let two = three.drop_last();
    let one = two.drop_last();
    assert(one.drop_last() =~= Seq::<HintModel>::empty());
    reveal_with_fuel(entries_width, 5);
}

} // verus!
