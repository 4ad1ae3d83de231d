//! How paths compare, in terms of the names they are made of.

use vstd::prelude::*;

use crate::path::{
    is_name, law_text_path_reads_back, lead, parts, same_place, segments, within, FilePath, DOT,
    SLASH,
};

verus! {

/// Names that can stand between slashes: no slash in them, not empty, and not
/// the dot that means "here".
pub open spec fn proper(names: Seq<Seq<u8>>) -> bool {
    forall|i: int|
        0 <= i < names.len() ==> (#[trigger] names[i]).len() > 0 && names[i] != seq![46u8]
            && !names[i].contains(47u8)
}

/// The absolute path that goes through these names.
pub open spec fn spelled(names: Seq<Seq<u8>>) -> Seq<u8>
    decreases names.len(),
{
    if names.len() == 0 {
        seq![47u8]
    } else if names.len() == 1 {
        seq![47u8] + names[0]
    } else {
        spelled(names.drop_last()) + seq![47u8] + names.last()
    }
}

proof fn lemma_some_segment(path: Seq<u8>)
    ensures
        segments(path).len() > 0,
    decreases path.len(),
{
    if path.len() > 0 {
        lemma_some_segment(path.drop_last());
    }
}

/// A slash between two runs parts them.
proof fn lemma_slash_parts(a: Seq<u8>, b: Seq<u8>)
    ensures
        segments(a + seq![SLASH] + b) == segments(a) + segments(b),
    decreases b.len(),
{
    let whole = a + seq![SLASH] + b;
    lemma_some_segment(b);
    if b.len() == 0 {
        assert(whole.drop_last() =~= a);
        assert(segments(whole) =~= segments(a) + segments(b));
    } else {
        lemma_slash_parts(a, b.drop_last());
        lemma_some_segment(b.drop_last());
        assert(whole.drop_last() =~= a + seq![SLASH] + b.drop_last());
        let front = segments(b.drop_last());
        let all = segments(a) + front;
        assert(all.drop_last() =~= segments(a) + front.drop_last());
        assert(all.last() == front.last());
        assert(segments(whole) =~= segments(a) + segments(b));
    }
}

/// A run without a slash is one segment.
proof fn lemma_one_segment(name: Seq<u8>)
    requires
        !name.contains(SLASH),
    ensures
        segments(name) == seq![name],
    decreases name.len(),
{
    if name.len() > 0 {
        let front = name.drop_last();
        assert(name.last() != SLASH) by {
            assert(name[name.len() - 1] == name.last());
        }
        assert(!front.contains(SLASH)) by {
            if front.contains(SLASH) {
                let i = choose|i: int| 0 <= i < front.len() && front[i] == SLASH;
                assert(name[i] == SLASH);
            }
        }
        lemma_one_segment(front);
        assert(seq![front].last().push(name.last()) =~= name);
        assert(segments(name) =~= seq![name]);
    } else {
        assert(name =~= Seq::<u8>::empty());
    }
}

proof fn lemma_spelled_segments(names: Seq<Seq<u8>>)
    requires
        proper(names),
        names.len() > 0,
    ensures
        segments(spelled(names)) == seq![Seq::<u8>::empty()] + names,
    decreases names.len(),
{
    let none = Seq::<u8>::empty();
    assert(!none.contains(SLASH));
    lemma_one_segment(none);
    assert(names[names.len() - 1] == names.last());
    lemma_one_segment(names.last());
    if names.len() == 1 {
        lemma_slash_parts(none, names[0]);
        assert(none + seq![SLASH] + names[0] =~= spelled(names));
        assert(segments(spelled(names)) =~= seq![none] + names);
    } else {
        let front = names.drop_last();
        assert(proper(front)) by {
            assert forall|i: int| 0 <= i < front.len() implies (#[trigger] front[i]).len() > 0
                && front[i] != seq![46u8] && !front[i].contains(47u8) by {
                assert(front[i] == names[i]);
            }
        }
        lemma_spelled_segments(front);
        lemma_slash_parts(spelled(front), names.last());
        assert(segments(spelled(names)) =~= seq![none] + names);
    }
}

proof fn lemma_names_stay(names: Seq<Seq<u8>>)
    requires
        proper(names),
    ensures
        names.filter(|s: Seq<u8>| is_name(s)) == names,
    decreases names.len(),
{
    reveal(Seq::filter);
    if names.len() > 0 {
        let front = names.drop_last();
        assert(proper(front)) by {
            assert forall|i: int| 0 <= i < front.len() implies (#[trigger] front[i]).len() > 0
                && front[i] != seq![46u8] && !front[i].contains(47u8) by {
                assert(front[i] == names[i]);
            }
        }
        lemma_names_stay(front);
        assert(names[names.len() - 1] == names.last());
        assert(is_name(names.last()));
        assert(front.push(names.last()) =~= names);
    }
}

proof fn lemma_filter_add(a: Seq<Seq<u8>>, b: Seq<Seq<u8>>)
    ensures
        (a + b).filter(|s: Seq<u8>| is_name(s)) == a.filter(|s: Seq<u8>| is_name(s)) + b.filter(
            |s: Seq<u8>| is_name(s),
        ),
{
    let keep = |s: Seq<u8>| is_name(s);
    Seq::filter_distributes_over_add(a, b, keep);
}

/// A segment that names nothing is left out.
proof fn lemma_left_out(segment: Seq<u8>)
    requires
        !is_name(segment),
    ensures
        seq![segment].filter(|s: Seq<u8>| is_name(s)) == Seq::<Seq<u8>>::empty(),
{
    reveal_with_fuel(Seq::filter, 2);
    assert(seq![segment].drop_last() =~= Seq::<Seq<u8>>::empty());
    assert(seq![segment].last() == segment);
}

/// What is kept was there before.
proof fn lemma_kept_was_there(all: Seq<Seq<u8>>, k: int)
    requires
        0 <= k < all.filter(|s: Seq<u8>| is_name(s)).len(),
    ensures
        all.contains(all.filter(|s: Seq<u8>| is_name(s))[k]),
    decreases all.len(),
{
    let keep = |s: Seq<u8>| is_name(s);
    reveal(Seq::filter);
    if all.len() > 0 {
        let front = all.drop_last();
        let kept = front.filter(keep);
        if k < kept.len() {
            lemma_kept_was_there(front, k);
            let i = choose|i: int| 0 <= i < front.len() && front[i] == kept[k];
            assert(all[i] == kept[k]);
        } else {
            assert(all[all.len() - 1] == all.filter(keep)[k]);
        }
    }
}

/// An absolute path has the root for its first part, and then its names.
pub proof fn lemma_spelled_parts(names: Seq<Seq<u8>>)
    requires
        proper(names),
    ensures
        parts(spelled(names)) == seq![seq![47u8]] + names,
{
    let path = spelled(names);
    let keep = |s: Seq<u8>| is_name(s);
    lemma_spelled_starts(names);
    assert(lead(path) == seq![seq![SLASH]]);
    let none = Seq::<u8>::empty();
    if names.len() == 0 {
        assert(!none.contains(SLASH));
        lemma_one_segment(none);
        lemma_slash_parts(none, none);
        assert(none + seq![SLASH] + none =~= path);
        reveal(Seq::filter);
        let two = seq![none, none];
        assert(segments(path) =~= two);
        assert(two.drop_last() =~= seq![none]);
        lemma_left_out(none);
        assert(two.filter(keep) =~= Seq::<Seq<u8>>::empty());
    } else {
        lemma_spelled_segments(names);
        lemma_filter_add(seq![none], names);
        lemma_names_stay(names);
        lemma_left_out(none);
    }
    assert(parts(path) =~= seq![seq![47u8]] + names);
}

proof fn lemma_spelled_starts(names: Seq<Seq<u8>>)
    ensures
        spelled(names).len() > 0,
        spelled(names)[0] == 47u8,
    decreases names.len(),
{
    if names.len() > 1 {
        lemma_spelled_starts(names.drop_last());
    }
}

/// Absolute paths are the same place exactly when they go through the same
/// names, one lies within the other exactly when it starts with the same names,
/// and a path is as deep as it has names, one more for the root.
pub proof fn law_paths_compare_by_their_names(
    a: Seq<Seq<u8>>,
    b: Seq<Seq<u8>>,
    one: &FilePath,
    other: &FilePath,
    same: bool,
    inside: bool,
    depth: usize,
)
    requires
        proper(a),
        proper(b),
        one.bytes@ == spelled(a),
        other.bytes@ == spelled(b),
        call_ensures(FilePath::is, (one, other), same),
        call_ensures(FilePath::starts_with, (one, other), inside),
        call_ensures(FilePath::depth, (one,), depth),
    ensures
        same <==> a == b,
        inside <==> b.len() <= a.len() && a.take(b.len() as int) == b,
        depth == a.len() + 1,
{
    lemma_spelled_parts(a);
    lemma_spelled_parts(b);
    let root = seq![seq![47u8]];
    let p = root + a;
    let q = root + b;
    if same {
        assert(p.skip(1) =~= a);
        assert(q.skip(1) =~= b);
    }
    if inside {
        assert(q == p.subrange(0, q.len() as int));
        assert(a.take(b.len() as int) =~= b) by {
            assert forall|i: int| 0 <= i < b.len() implies a[i] == b[i] by {
                assert(q[i + 1] == p[i + 1]);
            }
        }
    }
    if b.len() <= a.len() && a.take(b.len() as int) == b {
        assert forall|i: int| 0 <= i < q.len() implies q[i] == p[i] by {
            if i > 0 {
                assert(a.take(b.len() as int)[i - 1] == b[i - 1]);
            }
        }
        assert(q =~= p.subrange(0, q.len() as int));
    }
}

/// A second slash beside a slash, and a dot between two, stand for nothing.
pub proof fn law_repeated_slashes_and_dots_stand_for_nothing(a: Seq<u8>, b: Seq<u8>)
    ensures
        same_place(a + seq![47u8, 47u8] + b, a + seq![47u8] + b),
        same_place(a + seq![47u8, 46u8, 47u8] + b, a + seq![47u8] + b),
{
    let keep = |s: Seq<u8>| is_name(s);
    let none = Seq::<u8>::empty();
    let here = seq![DOT];
    let plain = a + seq![SLASH] + b;
    let twice = a + seq![47u8, 47u8] + b;
    let dotted = a + seq![47u8, 46u8, 47u8] + b;
    assert(!none.contains(SLASH));
    assert(!here.contains(SLASH));
    lemma_one_segment(none);
    lemma_one_segment(here);
    lemma_slash_parts(a, b);
    lemma_slash_parts(none, b);
    lemma_slash_parts(a, none + seq![SLASH] + b);
    assert(twice =~= a + seq![SLASH] + (none + seq![SLASH] + b));
    lemma_slash_parts(here, b);
    lemma_slash_parts(a, here + seq![SLASH] + b);
    assert(dotted =~= a + seq![SLASH] + (here + seq![SLASH] + b));
    let sa = segments(a);
    let sb = segments(b);
    lemma_filter_add(sa, sb);
    lemma_filter_add(seq![none], sb);
    lemma_filter_add(sa, seq![none] + sb);
    lemma_filter_add(seq![here], sb);
    lemma_filter_add(sa, seq![here] + sb);
    lemma_left_out(none);
    lemma_left_out(here);
    let names = sb.filter(keep);
    assert(Seq::<Seq<u8>>::empty() + names =~= names);
    lemma_some_segment(a);
    assert(segments(plain)[0] == sa[0]);
    assert(segments(twice)[0] == sa[0]);
    assert(segments(dotted)[0] == sa[0]);
    if a.len() == 0 {
        assert(plain[0] == SLASH && twice[0] == SLASH && dotted[0] == SLASH);
    } else {
        assert(plain[0] == a[0] && twice[0] == a[0] && dotted[0] == a[0]);
    }
}

/// An absolute path and a relative one are never the same place, nor is either
/// within the other, but that everything lies within the empty path.
pub proof fn law_absolute_and_relative_paths_differ(a: Seq<u8>, b: Seq<u8>)
    requires
        a.len() > 0 && a[0] == 47u8,
        b.len() > 0 && b[0] != 47u8,
        parts(b).len() > 0,
    ensures
        !same_place(a, b),
        !within(a, b),
        !within(b, a),
{
    let keep = |s: Seq<u8>| is_name(s);
    let x = parts(a);
    let y = parts(b);
    assert(x[0] == seq![SLASH]);
    lemma_names_hold_no_slash(b);
    assert(y[0] != seq![SLASH]) by {
        if y[0] == seq![SLASH] {
            assert(y[0][0] == SLASH);
            if lead(b).len() > 0 {
                assert(y[0] == seq![DOT]);
                assert(seq![DOT][0] != SLASH);
            } else {
                let kept = segments(b).filter(keep);
                assert(y =~= kept);
                lemma_kept_was_there(segments(b), 0);
                let i = choose|i: int| 0 <= i < segments(b).len() && segments(b)[i] == kept[0];
                assert(segments(b)[i].contains(SLASH));
            }
        }
    }
    if within(a, b) {
        assert(y[0] == x.subrange(0, y.len() as int)[0]);
    }
    if within(b, a) {
        assert(x[0] == y.subrange(0, x.len() as int)[0]);
    }
}

proof fn lemma_names_hold_no_slash(path: Seq<u8>)
    ensures
        forall|i: int| 0 <= i < segments(path).len() ==> !(#[trigger] segments(path)[i]).contains(SLASH),
    decreases path.len(),
{
    if path.len() > 0 {
        lemma_names_hold_no_slash(path.drop_last());
        lemma_some_segment(path.drop_last());
        let front = segments(path.drop_last());
        assert forall|i: int| 0 <= i < segments(path).len() implies !(#[trigger] segments(
            path,
        )[i]).contains(SLASH) by {
            if path.last() != SLASH && i == segments(path).len() - 1 {
                let grown = front.last().push(path.last());
                assert(!front[front.len() - 1].contains(SLASH));
                if grown.contains(SLASH) {
                    let k = choose|k: int| 0 <= k < grown.len() && grown[k] == SLASH;
                    assert(front.last()[k] == SLASH);
                }
            } else if i < front.len() {
                assert(segments(path)[i] == front[i]);
            }
        }
    }
}

/// A text that is made a path and shown again reads as it did.
pub proof fn law_texts_stay_what_they_are_as_paths(text: &str, path: FilePath, r: String)
    requires
        call_ensures(FilePath::from_text, (text,), path),
        call_ensures(FilePath::display, (&path,), r),
    ensures
        r@ == text@,
{
    law_text_path_reads_back(text@);
}

} // verus!
