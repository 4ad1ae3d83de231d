//! Paths as the operating system hands them over: a run of bytes.
//!
//! Two spellings of one place compare as equal, because paths are compared
//! part by part: a repeated slash, a trailing slash and a `.` in the middle
//! stand for nothing.

use vstd::prelude::*;
use vstd::seq_lib::*;
use vstd::slice::*;
use vstd::utf8::*;

verus! {

/// The byte that separates the parts of a path.
pub const SLASH: u8 = 47;

/// The byte that, alone between slashes, means "here".
pub const DOT: u8 = 46;

/// What stands between the slashes of a path, empty stretches included.
pub open spec fn segments(path: Seq<u8>) -> Seq<Seq<u8>>
    decreases path.len(),
{
    if path.len() == 0 {
        seq![Seq::empty()]
    } else {
        let front = segments(path.drop_last());
        if path.last() == SLASH {
            front.push(Seq::empty())
        } else {
            front.drop_last().push(front.last().push(path.last()))
        }
    }
}

/// A segment that names something, rather than standing for nothing.
pub open spec fn is_name(segment: Seq<u8>) -> bool {
    segment.len() > 0 && segment != seq![DOT]
}

/// What a path starts from: the root, the directory it is read in when the
/// path says so, or nothing.
pub open spec fn lead(path: Seq<u8>) -> Seq<Seq<u8>> {
    if path.len() > 0 && path[0] == SLASH {
        seq![seq![SLASH]]
    } else if segments(path)[0] == seq![DOT] {
        seq![seq![DOT]]
    } else {
        Seq::empty()
    }
}

/// The parts a path is compared by.
pub open spec fn parts(path: Seq<u8>) -> Seq<Seq<u8>> {
    lead(path) + segments(path).filter(|s: Seq<u8>| is_name(s))
}

/// Both paths lead to the same place by the same parts.
pub open spec fn same_place(a: Seq<u8>, b: Seq<u8>) -> bool {
    parts(a) == parts(b)
}

/// `inner` is `outer`, or lies below it.
pub open spec fn within(inner: Seq<u8>, outer: Seq<u8>) -> bool {
    parts(outer).is_prefix_of(parts(inner))
}

/// What the vectors of a list hold.
pub open spec fn contents(list: Seq<Vec<u8>>) -> Seq<Seq<u8>> {
    list.map_values(|v: Vec<u8>| v@)
}

/// There is always at least one segment.
proof fn lemma_segments_some(path: Seq<u8>)
    ensures
        segments(path).len() > 0,
    decreases path.len(),
{
    if path.len() > 0 {
        lemma_segments_some(path.drop_last());
    }
}

/// Whether two byte runs are the same.
fn same_bytes(a: &Vec<u8>, b: &Vec<u8>) -> (same: bool)
    ensures
        same == (a@ == b@),
{
    if a.len() != b.len() {
        return false;
    }
    for i in 0..a.len()
        invariant
            a.len() == b.len(),
            forall|j: int| 0 <= j < i ==> a@[j] == b@[j],
    {
        if a[i] != b[i] {
            assert(a@[i as int] != b@[i as int]);
            return false;
        }
    }
    assert(a@ =~= b@);
    true
}

/// Splits a path at its slashes.
fn split(path: &Vec<u8>) -> (r: Vec<Vec<u8>>)
    ensures
        contents(r@) == segments(path@),
{
    let mut done: Vec<Vec<u8>> = Vec::new();
    let mut open: Vec<u8> = Vec::new();
    assert(contents(done@).push(open@) =~= segments(path@.take(0)));
    for i in 0..path.len()
        invariant
            contents(done@).push(open@) == segments(path@.take(i as int)),
    {
        let byte: u8 = path[i];
        let ghost before = contents(done@).push(open@);
        proof {
            let now = path@.take(i + 1);
            assert(now.drop_last() =~= path@.take(i as int));
            assert(now.last() == byte);
            assert(before.drop_last() =~= contents(done@));
            assert(before.last() == open@);
        }
        if byte == SLASH {
            done.push(open);
            open = Vec::new();
            assert(contents(done@) =~= before);
            assert(open@ =~= Seq::<u8>::empty());
        } else {
            open.push(byte);
        }
    }
    let ghost whole = contents(done@).push(open@);
    done.push(open);
    assert(contents(done@) =~= whole);
    assert(path@.take(path@.len() as int) =~= path@);
    done
}

/// Whether a segment names something.
fn names(segment: &Vec<u8>) -> (r: bool)
    ensures
        r == is_name(segment@),
{
    if segment.len() == 0 {
        return false;
    }
    if segment.len() == 1 && segment[0] == DOT {
        assert(segment@ =~= seq![DOT]);
        return false;
    }
    assert(segment@ != seq![DOT]) by {
        if segment@ == seq![DOT] {
            assert(segment@[0] == DOT);
        }
    }
    true
}

/// The parts of a path, for comparing it.
fn parts_of(path: &Vec<u8>) -> (r: Vec<Vec<u8>>)
    ensures
        contents(r@) == parts(path@),
{
    let found = split(path);
    let mut r: Vec<Vec<u8>> = Vec::new();
    proof {
        lemma_segments_some(path@);
        assert(found@.len() == contents(found@).len());
        assert(contents(found@)[0] == found@[0]@);
    }
    if path.len() > 0 && path[0] == SLASH {
        let mut root: Vec<u8> = Vec::new();
        root.push(SLASH);
        assert(root@ =~= seq![SLASH]);
        r.push(root);
    } else if found[0].len() == 1 && found[0][0] == DOT {
        let mut here: Vec<u8> = Vec::new();
        here.push(DOT);
        assert(here@ =~= seq![DOT]);
        assert(found@[0]@ =~= seq![DOT]);
        r.push(here);
    } else {
        assert(found@[0]@ != seq![DOT]) by {
            if found@[0]@ == seq![DOT] {
                assert(found@[0]@[0] == DOT);
            }
        }
    }
    assert(contents(r@) =~= lead(path@));
    let ghost all = contents(found@);
    let ghost keep = |s: Seq<u8>| is_name(s);
    let ghost start = contents(r@);
    proof {
        reveal(Seq::filter);
        assert(all.take(0).filter(keep) =~= Seq::<Seq<u8>>::empty());
    }
    for i in 0..found.len()
        invariant
            all == contents(found@),
            keep == (|s: Seq<u8>| is_name(s)),
            contents(r@) =~= start + all.take(i as int).filter(keep),
    {
        proof {
            reveal(Seq::filter);
            assert(all.take(i + 1).drop_last() =~= all.take(i as int));
            assert(all.take(i + 1).last() == found@[i as int]@);
        }
        let ghost before = contents(r@);
        if names(&found[i]) {
            let copy = found[i].clone();
            assert(copy@ =~= found@[i as int]@);
            r.push(copy);
            assert(contents(r@) =~= before.push(found@[i as int]@));
            assert(all.take(i + 1).filter(keep) == all.take(i as int).filter(keep).push(
                found@[i as int]@,
            ));
        } else {
            assert(all.take(i + 1).filter(keep) == all.take(i as int).filter(keep));
        }
    }
    assert(all.take(found@.len() as int) =~= all);
    r
}

/// The text that stands for a path on screen, by `String::from_utf8_lossy`.
pub uninterp spec fn lossy(path: Seq<u8>) -> Seq<char>;

/// `String::from_utf8_lossy`: the text of a byte run, which depends on the
/// bytes alone. A valid UTF-8 run gives the text it encodes; how anything else
/// is replaced is left unsaid here.
#[verifier::external_body]
fn from_utf8_lossy(bytes: &Vec<u8>) -> (r: String)
    ensures
        r@ == lossy(bytes@),
        valid_utf8(bytes@) ==> r@ == decode_utf8(bytes@),
{
    String::from_utf8_lossy(bytes).into_owned()
}

/// A path, kept as its bytes.
#[derive(Debug)]
pub struct FilePath {
    pub bytes: Vec<u8>,
}

impl View for FilePath {
    type V = Seq<u8>;

    open spec fn view(&self) -> Seq<u8> {
        self.bytes@
    }
}

impl FilePath {
    /// The path a text spells.
    pub fn from_text(text: &str) -> (r: FilePath)
        ensures
            r@ == encode_utf8(text@),
    {
        FilePath { bytes: slice_to_vec(text.as_bytes()) }
    }

    /// Whether both paths lead to the same place by the same parts.
    pub fn is(&self, other: &FilePath) -> (r: bool)
        ensures
            r == same_place(self@, other@),
    {
        let a = parts_of(&self.bytes);
        let b = parts_of(&other.bytes);
        if a.len() != b.len() {
            assert(contents(a@).len() == a@.len());
            assert(contents(b@).len() == b@.len());
            return false;
        }
        starts(&a, &b)
    }

    /// Whether this path is `base` or lies below it. Only whole parts count:
    /// `/wt/auth2` is not below `/wt/auth`.
    pub fn starts_with(&self, base: &FilePath) -> (r: bool)
        ensures
            r == within(self@, base@),
    {
        let a = parts_of(&self.bytes);
        let b = parts_of(&base.bytes);
        starts(&a, &b)
    }

    /// How many parts lead to the place.
    pub fn depth(&self) -> (r: usize)
        ensures
            r == parts(self@).len(),
    {
        let found = parts_of(&self.bytes);
        assert(contents(found@).len() == found@.len());
        found.len()
    }

    /// The text that stands for this path on screen.
    pub fn display(&self) -> (r: String)
        ensures
            r@ == lossy(self@),
            valid_utf8(self@) ==> r@ == decode_utf8(self@),
    {
        from_utf8_lossy(&self.bytes)
    }
}

impl Clone for FilePath {
    fn clone(&self) -> (r: FilePath)
        ensures
            r@ == self@,
    {
        let bytes = self.bytes.clone();
        assert(bytes@ =~= self.bytes@);
        FilePath { bytes }
    }
}

/// Whether the list `a` begins with the list `b`.
fn starts(a: &Vec<Vec<u8>>, b: &Vec<Vec<u8>>) -> (r: bool)
    ensures
        r == contents(b@).is_prefix_of(contents(a@)),
        a@.len() == b@.len() ==> r == (contents(a@) == contents(b@)),
{
    if b.len() > a.len() {
        return false;
    }
    for i in 0..b.len()
        invariant
            b.len() <= a.len(),
            forall|j: int| 0 <= j < i ==> contents(a@)[j] == contents(b@)[j],
    {
        if !same_bytes(&a[i], &b[i]) {
            assert(contents(a@)[i as int] != contents(b@)[i as int]);
            assert(contents(a@).subrange(0, b@.len() as int)[i as int] == contents(a@)[i as int]);
            return false;
        }
    }
    assert(contents(b@) =~= contents(a@).subrange(0, b@.len() as int));
    assert(a@.len() == b@.len() ==> contents(a@) =~= contents(b@));
    true
}

/// A path spelled by a text shows that text: its bytes are valid UTF-8 and
/// read back as what was spelled.
pub proof fn law_text_path_reads_back(text: Seq<char>)
    ensures
        valid_utf8(encode_utf8(text)),
        decode_utf8(encode_utf8(text)) == text,
{
    encode_utf8_valid_utf8(text);
    encode_utf8_decode_utf8(text);
}

/// Every path lies within itself, and paths that are the same place lie within
/// each other.
pub proof fn law_within_itself(a: Seq<u8>, b: Seq<u8>)
    ensures
        within(a, a),
        same_place(a, b) <==> within(a, b) && within(b, a),
{
    assert(parts(a) =~= parts(a).subrange(0, parts(a).len() as int));
    if within(a, b) && within(b, a) {
        assert(parts(a) =~= parts(b));
    }
}

/// Whatever lies within a path lies within everything that path is within.
pub proof fn law_within_chains(a: Seq<u8>, b: Seq<u8>, c: Seq<u8>)
    requires
        within(a, b),
        within(b, c),
    ensures
        within(a, c),
{
    assert(parts(c) =~= parts(a).subrange(0, parts(c).len() as int)) by {
        assert(parts(b) == parts(a).subrange(0, parts(b).len() as int));
        assert(parts(c) == parts(b).subrange(0, parts(c).len() as int));
    }
}

/// A trailing slash changes nothing about the place a path leads to, unless
/// the path is empty.
pub proof fn law_trailing_slash(path: Seq<u8>)
    requires
        path.len() > 0,
    ensures
        same_place(path.push(SLASH), path),
{
    let longer = path.push(SLASH);
    let keep = |s: Seq<u8>| is_name(s);
    assert(longer.drop_last() =~= path);
    lemma_segments_some(path);
    assert(segments(longer) == segments(path).push(Seq::empty()));
    assert(segments(longer).drop_last() =~= segments(path));
    assert(segments(longer).last() =~= Seq::<u8>::empty());
    reveal(Seq::filter);
    assert(segments(longer).filter(keep) =~= segments(path).filter(keep));
    assert(lead(longer) =~= lead(path));
}

} // verus!
