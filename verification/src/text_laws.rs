//! What the text functions give, in terms of the characters they are given.

use vstd::prelude::*;

use crate::text::{
    blanks, column_width, contains, decimal, digit, fit, join, law_column_width, number, pad,
    readings, truncate, widest,
};

verus! {

/// The number a run of decimal digits stands for.
pub open spec fn value(digits: Seq<char>) -> int
    decreases digits.len(),
{
    if digits.len() == 0 {
        0
    } else {
        value(digits.drop_last()) * 10 + (digits.last() as int - '0' as int)
    }
}

/// Reads as this number: digits that come to it, without a zero in front.
pub open spec fn reads_as(text: Seq<char>, n: int) -> bool {
    &&& text.len() > 0
    &&& forall|i: int| 0 <= i < text.len() ==> '0' <= #[trigger] text[i] && text[i] <= '9'
    &&& value(text) == n
    &&& text[0] == '0' ==> text.len() == 1
}

pub proof fn lemma_decimal_reads(n: nat)
    ensures
        reads_as(decimal(n), n as int),
        n > 0 ==> decimal(n)[0] != '0',
    decreases n,
{
    if n < 10 {
        assert(decimal(n) =~= seq![digit(n)]);
        assert(decimal(n).drop_last() =~= Seq::<char>::empty());
        assert(value(Seq::<char>::empty()) == 0);
    } else {
        lemma_decimal_reads(n / 10);
        assert(decimal(n).drop_last() =~= decimal(n / 10));
        assert(decimal(n).last() == digit(n % 10));
        assert(decimal(n)[0] == decimal(n / 10)[0]);
    }
}

/// A number is written as the digits that read as it.
pub proof fn law_numbers_read_back(n: usize, r: String)
    requires
        call_ensures(number, (n,), r),
    ensures
        reads_as(r@, n as int),
{
    lemma_decimal_reads(n as nat);
}

/// Every character is a space.
pub open spec fn all_blank(text: Seq<char>) -> bool {
    forall|i: int| 0 <= i < text.len() ==> #[trigger] text[i] == ' '
}

/// This many blanks are this many spaces.
pub proof fn law_blanks_are_spaces(n: usize, r: String)
    requires
        call_ensures(blanks, (n,), r),
    ensures
        r@.len() == n,
        all_blank(r@),
{
}

/// Cutting keeps the front of a line, as much of it as there is room for.
pub proof fn law_cutting_keeps_the_front(line: &str, width: usize, r: String)
    requires
        call_ensures(truncate, (line, width), r),
    ensures
        r@.len() == if line@.len() < width {
            line@.len() as int
        } else {
            width as int
        },
        r@ == line@.take(r@.len() as int),
{
    assert(r@ =~= line@.take(r@.len() as int));
}

/// Padding keeps the whole line and adds nothing but spaces behind it, and only
/// as many as are missing.
pub proof fn law_padding_adds_spaces_behind(line: &str, width: usize, r: String)
    requires
        call_ensures(pad, (line, width), r),
    ensures
        r@.len() == if line@.len() < width {
            width as int
        } else {
            line@.len() as int
        },
        r@.take(line@.len() as int) == line@,
        all_blank(r@.skip(line@.len() as int)),
{
    assert(r@.take(line@.len() as int) =~= line@);
}

/// A fitted line is as wide as asked: the front of the line, and spaces behind
/// it where it is too short.
pub proof fn law_fitting_cuts_or_pads(line: &str, width: usize, r: String)
    requires
        call_ensures(fit, (line, width), r),
    ensures
        r@.len() == width,
        forall|i: int| 0 <= i < width && i < line@.len() ==> #[trigger] r@[i] == line@[i],
        forall|i: int| line@.len() <= i < width ==> #[trigger] r@[i] == ' ',
{
}

/// Joining no strings gives nothing, and one string more comes behind a
/// separator, unless it is the first.
pub proof fn law_joining_one_more(
    list: &Vec<String>,
    longer: &Vec<String>,
    between: &str,
    r: String,
    s: String,
)
    requires
        call_ensures(join, (list, between), r),
        call_ensures(join, (longer, between), s),
        longer@.len() == list@.len() + 1,
        forall|i: int| 0 <= i < list@.len() ==> (#[trigger] longer@[i])@ == list@[i]@,
    ensures
        list@.len() == 0 ==> r@.len() == 0,
        s@ == if list@.len() == 0 {
            longer@[0]@
        } else {
            r@ + between@ + longer@[list@.len() as int]@
        },
{
    let parts = readings(longer@);
    assert(parts.drop_last() =~= readings(list@));
    assert(parts.last() == longer@[list@.len() as int]@);
}

/// A column is as wide as its widest entry, and never narrower than its label.
pub open spec fn is_widest(width: int, entries: Seq<Seq<char>>, label: Seq<char>) -> bool {
    &&& label.len() <= width
    &&& forall|i: int| 0 <= i < entries.len() ==> (#[trigger] entries[i]).len() <= width
    &&& width == label.len() || exists|i: int|
        0 <= i < entries.len() && (#[trigger] entries[i]).len() == width
}

/// There is but one such width.
pub proof fn lemma_widest_is_the_width(width: int, entries: Seq<Seq<char>>, label: Seq<char>)
    requires
        is_widest(width, entries, label),
    ensures
        width == column_width(entries, label),
{
    law_column_width(entries, label);
    let other = column_width(entries, label);
    if width != label.len() {
        let i = choose|i: int|
            0 <= i < entries.len() && (#[trigger] entries[i]).len() == width;
        assert(entries[i].len() <= other);
    }
    if other != label.len() {
        let i = choose|i: int|
            0 <= i < entries.len() && (#[trigger] entries[i]).len() == other;
        assert(entries[i].len() <= width);
    }
}

/// The width of a column is that of its widest entry or its label.
pub proof fn law_widest_is_widest(entries: &Vec<String>, label: &str, w: usize)
    requires
        call_ensures(widest, (entries, label), w),
    ensures
        label@.len() <= w,
        forall|i: int| 0 <= i < entries@.len() ==> (#[trigger] entries@[i])@.len() <= w,
        w == label@.len() || exists|i: int|
            0 <= i < entries@.len() && (#[trigger] entries@[i])@.len() == w,
{
    let all = readings(entries@);
    law_column_width(all, label@);
    assert forall|i: int| 0 <= i < entries@.len() implies (#[trigger] entries@[i])@.len() <= w by {
        assert(all[i] == entries@[i]@);
    }
    if w != label@.len() {
        let i = choose|i: int| 0 <= i < all.len() && (#[trigger] all[i]).len() == w;
        assert(entries@[i]@.len() == w);
    }
}

/// A text is found in another exactly when something comes before it, or
/// nothing, and something behind.
pub proof fn law_found_means_in_between(hay: &str, needle: &str, found: bool)
    requires
        call_ensures(contains, (hay, needle), found),
    ensures
        found <==> exists|a: Seq<char>, b: Seq<char>| #[trigger] (a + needle@ + b) == hay@,
{
    if found {
        let i = choose|i: int|
            0 <= i <= hay@.len() - needle@.len() && #[trigger] hay@.subrange(
                i,
                i + needle@.len(),
            ) == needle@;
        let a = hay@.take(i);
        let b = hay@.skip(i + needle@.len());
        assert(a + needle@ + b =~= hay@);
    }
    if exists|a: Seq<char>, b: Seq<char>| #[trigger] (a + needle@ + b) == hay@ {
        let (a, b) = choose|a: Seq<char>, b: Seq<char>| #[trigger] (a + needle@ + b) == hay@;
        assert(hay@.subrange(a.len() as int, a.len() as int + needle@.len()) =~= needle@);
    }
}

} // verus!
