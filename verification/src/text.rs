//! Text the screens are made of: numbers, padding, joining and searching.

use vstd::prelude::*;
use vstd::string::*;

verus! {

/// `String::push`: the string keeps what it held, and `c` follows it.
pub assume_specification[ String::push ](s: &mut String, c: char)
    ensures
        final(s)@ == old(s)@.push(c),
;

/// `String::pop`: the last character leaves the string and is returned; an
/// empty string stays empty and gives `None`.
pub assume_specification[ String::pop ](s: &mut String) -> (last: Option<char>)
    ensures
        old(s)@.len() == 0 ==> last is None && final(s)@ == old(s)@,
        old(s)@.len() > 0 ==> last == Some(old(s)@.last()) && final(s)@ == old(s)@.drop_last(),
;

/// The character for a decimal digit.
pub open spec fn digit(d: nat) -> char {
    (48 + d) as char
}

/// A number in decimal, without leading zeros.
pub open spec fn decimal(n: nat) -> Seq<char>
    decreases n,
{
    if n < 10 {
        seq![digit(n)]
    } else {
        decimal(n / 10).push(digit(n % 10))
    }
}

/// Writes a number in decimal.
pub fn number(n: usize) -> (r: String)
    ensures
        r@ == decimal(n as nat),
    decreases n,
{
    let mut r = if n < 10 {
        String::new()
    } else {
        number(n / 10)
    };
    let d: u8 = (n % 10) as u8;
    r.push((48 + d) as char);
    proof {
        assert(r@ =~= decimal(n as nat));
    }
    r
}

/// The characters of a string, one by one.
pub fn chars_of(s: &str) -> (r: Vec<char>)
    ensures
        r@ == s@,
{
    let mut r: Vec<char> = Vec::new();
    for c in it: s.chars()
        invariant
            r@ == it.seq().take(it.index()),
            it.seq() == s@,
    {
        r.push(c);
        assert(r@ =~= it.seq().take(it.index() + 1));
    }
    assert(r@ =~= s@);
    r
}

/// `n` spaces.
pub open spec fn spaces(n: nat) -> Seq<char> {
    Seq::new(n, |i: int| ' ')
}

/// A line cut to `width` characters, or padded with spaces up to it.
pub open spec fn fitted(line: Seq<char>, width: nat) -> Seq<char> {
    if line.len() >= width {
        line.take(width as int)
    } else {
        line + spaces((width - line.len()) as nat)
    }
}

/// A line padded with spaces up to `width` characters, and never cut.
pub open spec fn padded(line: Seq<char>, width: nat) -> Seq<char> {
    if line.len() >= width {
        line
    } else {
        line + spaces((width - line.len()) as nat)
    }
}

/// A line cut to at most `width` characters.
pub open spec fn cut(line: Seq<char>, width: nat) -> Seq<char> {
    if line.len() >= width {
        line.take(width as int)
    } else {
        line
    }
}

/// A run of spaces.
pub fn blanks(n: usize) -> (r: String)
    ensures
        r@ == spaces(n as nat),
{
    let mut r = String::new();
    for i in 0..n
        invariant
            r@ =~= spaces(i as nat),
    {
        r.push(' ');
    }
    r
}

/// How many characters a string holds.
pub fn count(s: &str) -> (n: usize)
    ensures
        n == s@.len(),
{
    s.unicode_len()
}

/// Cuts a line to at most `width` characters.
pub fn truncate(line: &str, width: usize) -> (r: String)
    ensures
        r@ == cut(line@, width as nat),
{
    let chars = chars_of(line);
    let mut r = String::new();
    let mut i: usize = 0;
    while i < chars.len() && i < width
        invariant
            i <= chars.len(),
            i <= width,
            chars@ == line@,
            r@ =~= line@.take(i as int),
        decreases chars.len() - i,
    {
        r.push(chars[i]);
        i += 1;
    }
    assert(r@ =~= cut(line@, width as nat));
    r
}

/// Pads a line with spaces on the right, up to `width` characters.
pub fn pad(line: &str, width: usize) -> (r: String)
    ensures
        r@ == padded(line@, width as nat),
{
    let len: usize = count(line);
    let mut r = line.to_string();
    if len < width {
        r.append(blanks(width - len).as_str());
    }
    r
}

/// Truncates to `width` and pads to it, so a highlighted row spans the line.
pub fn fit(line: &str, width: usize) -> (r: String)
    ensures
        r@ == fitted(line@, width as nat),
{
    let cut_line = truncate(line, width);
    let r = pad(cut_line.as_str(), width);
    assert(r@ =~= fitted(line@, width as nat));
    r
}

/// A fitted line is exactly as wide as it was asked to be.
pub proof fn law_fitted_width(line: Seq<char>, width: nat)
    ensures
        fitted(line, width).len() == width,
{
}

/// Fitting a line that was fitted before changes nothing.
pub proof fn law_fitted_twice(line: Seq<char>, width: nat)
    ensures
        fitted(fitted(line, width), width) == fitted(line, width),
{
    assert(fitted(fitted(line, width), width) =~= fitted(line, width));
}

/// Padding a line before it is fitted makes no difference.
pub proof fn law_padding_before_fitting(line: Seq<char>, width: nat)
    ensures
        fitted(padded(line, width), width) == fitted(line, width),
{
    assert(fitted(padded(line, width), width) =~= fitted(line, width));
}

/// The parts one after another, with `between` separating neighbours.
pub open spec fn joined(parts: Seq<Seq<char>>, between: Seq<char>) -> Seq<char>
    decreases parts.len(),
{
    if parts.len() == 0 {
        Seq::empty()
    } else if parts.len() == 1 {
        parts[0]
    } else {
        joined(parts.drop_last(), between) + between + parts.last()
    }
}

/// What each string of a list reads.
pub open spec fn readings(list: Seq<String>) -> Seq<Seq<char>> {
    list.map_values(|s: String| s@)
}

/// Joins strings with a separator.
pub fn join(list: &Vec<String>, between: &str) -> (r: String)
    ensures
        r@ == joined(readings(list@), between@),
{
    let mut r = String::new();
    let ghost parts = readings(list@);
    for i in 0..list.len()
        invariant
            parts == readings(list@),
            r@ == joined(parts.take(i as int), between@),
    {
        if i > 0 {
            r.append(between);
        }
        r.append(list[i].as_str());
        proof {
            let now = parts.take(i + 1);
            assert(now.drop_last() =~= parts.take(i as int));
            assert(now.last() == list@[i as int]@);
            if i == 0 {
                assert(r@ =~= now[0]);
            }
        }
    }
    assert(parts.take(list@.len() as int) =~= parts);
    r
}

/// The width a column needs: that of its widest entry, and never less than
/// the label above it.
pub open spec fn column_width(entries: Seq<Seq<char>>, label: Seq<char>) -> nat
    decreases entries.len(),
{
    if entries.len() == 0 {
        label.len()
    } else {
        let rest = column_width(entries.drop_last(), label);
        if entries.last().len() > rest {
            entries.last().len()
        } else {
            rest
        }
    }
}

/// A column is wide enough for its label and for every entry, and no wider
/// than one of them needs.
pub proof fn law_column_width(entries: Seq<Seq<char>>, label: Seq<char>)
    ensures
        label.len() <= column_width(entries, label),
        forall|i: int|
            0 <= i < entries.len() ==> (#[trigger] entries[i]).len() <= column_width(entries, label),
        column_width(entries, label) == label.len() || exists|i: int|
            0 <= i < entries.len() && (#[trigger] entries[i]).len() == column_width(entries, label),
    decreases entries.len(),
{
    if entries.len() > 0 {
        let front = entries.drop_last();
        law_column_width(front, label);
        assert forall|i: int| 0 <= i < entries.len() implies (#[trigger] entries[i]).len()
            <= column_width(entries, label) by {
            if i < front.len() {
                assert(front[i] == entries[i]);
            }
        }
        if entries.last().len() > column_width(front, label) {
            assert(entries[entries.len() - 1].len() == column_width(entries, label));
        } else if column_width(front, label) != label.len() {
            let i = choose|i: int|
                0 <= i < front.len() && (#[trigger] front[i]).len() == column_width(front, label);
            assert(entries[i] == front[i]);
        }
    }
}

/// The width a column of these entries needs under its label.
pub fn widest(entries: &Vec<String>, label: &str) -> (w: usize)
    ensures
        w == column_width(readings(entries@), label@),
{
    let mut w: usize = count(label);
    let ghost all = readings(entries@);
    assert(all.take(0) =~= Seq::<Seq<char>>::empty());
    for i in 0..entries.len()
        invariant
            all == readings(entries@),
            w == column_width(all.take(i as int), label@),
    {
        let n: usize = count(entries[i].as_str());
        assert(all.take(i + 1).drop_last() =~= all.take(i as int));
        if n > w {
            w = n;
        }
    }
    assert(all.take(entries@.len() as int) =~= all);
    w
}

/// `needle` stands somewhere in `hay`, without a gap.
pub open spec fn occurs(needle: Seq<char>, hay: Seq<char>) -> bool {
    exists|i: int|
        0 <= i <= hay.len() - needle.len() && #[trigger] hay.subrange(i, i + needle.len())
            == needle
}

/// Whether `needle` stands somewhere in `hay`.
pub fn contains(hay: &str, needle: &str) -> (found: bool)
    ensures
        found == occurs(needle@, hay@),
{
    let h = chars_of(hay);
    let n = chars_of(needle);
    let mut at: usize = 0;
    while n.len() <= h.len() - at
        invariant
            h@ == hay@,
            n@ == needle@,
            at <= h.len(),
            forall|i: int| 0 <= i < at ==> #[trigger] hay@.subrange(i, i + needle@.len()) != needle@,
        decreases h.len() - at,
    {
        let mut k: usize = 0;
        while k < n.len() && h[at + k] == n[k]
            invariant
                h@ == hay@,
                n@ == needle@,
                at + n.len() <= h.len(),
                k <= n.len(),
                forall|j: int| 0 <= j < k ==> hay@[at + j] == needle@[j],
            decreases n.len() - k,
        {
            k += 1;
        }
        if k == n.len() {
            assert(hay@.subrange(at as int, at + needle@.len()) =~= needle@);
            return true;
        }
        assert(hay@.subrange(at as int, at + needle@.len())[k as int] != needle@[k as int]);
        at += 1;
    }
    false
}

/// What `str::to_lowercase` gives for a text.
pub uninterp spec fn lowercase(text: Seq<char>) -> Seq<char>;

/// A text of ASCII characters alone.
pub open spec fn ascii(text: Seq<char>) -> bool {
    forall|i: int| 0 <= i < text.len() ==> (#[trigger] text[i] as u32) < 128
}

/// The small letter of an ASCII capital, and any other character itself.
pub open spec fn small(c: char) -> char {
    if 'A' <= c && c <= 'Z' {
        (c as u32 + 32) as char
    } else {
        c
    }
}

/// A text with its ASCII capitals made small.
pub open spec fn small_letters(text: Seq<char>) -> Seq<char> {
    text.map_values(|c: char| small(c))
}

/// `str::to_lowercase`: the Unicode lowercase equivalent of a text, which
/// depends on the text alone. Of an ASCII text it is the text with its capitals
/// made small; the mapping of anything else is the one of the Unicode tables
/// and is left unsaid here.
#[verifier::external_body]
pub(crate) fn to_lowercase(text: &str) -> (r: String)
    ensures
        r@ == lowercase(text@),
        ascii(text@) ==> r@ == small_letters(text@),
{
    text.to_lowercase()
}

} // verus!
