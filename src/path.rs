//! Dotted addresses into a document.

use vstd::prelude::*;

verus! {

/// The views of a sequence of string slices.
pub open spec fn views(s: Seq<&str>) -> Seq<Seq<char>> {
    s.map_values(|x: &str| x@)
}

/// Appends a finished piece to the segments found so far, unless it is empty.
pub open spec fn flush(done: Seq<Seq<char>>, cur: Seq<char>) -> Seq<Seq<char>> {
    if cur.len() == 0 {
        done
    } else {
        done.push(cur)
    }
}

/// Reads `s` from the left, splitting at every `.`: the segments completed so
/// far, and the piece that follows the last dot.
pub open spec fn scan(s: Seq<char>) -> (Seq<Seq<char>>, Seq<char>)
    decreases s.len(),
{
    if s.len() == 0 {
        (seq![], seq![])
    } else {
        let (done, cur) = scan(s.drop_last());
        if s.last() == '.' {
            (flush(done, cur), seq![])
        } else {
            (done, cur.push(s.last()))
        }
    }
}

/// The segments of a path text: its pieces between dots, without the empty ones.
pub open spec fn segments_of(s: Seq<char>) -> Seq<Seq<char>> {
    flush(scan(s).0, scan(s).1)
}

/// Pieces joined with `sep` between each two.
pub open spec fn join_with(pieces: Seq<Seq<char>>, sep: char) -> Seq<char>
    decreases pieces.len(),
{
    if pieces.len() == 0 {
        seq![]
    } else if pieces.len() == 1 {
        pieces[0]
    } else {
        join_with(pieces.drop_last(), sep) + seq![sep] + pieces.last()
    }
}

/// Segments joined with a `.` between each two.
pub open spec fn join_dots(segs: Seq<Seq<char>>) -> Seq<char> {
    join_with(segs, '.')
}

/// The text of `a + b`: one separator between two non-empty sides, none
/// when a side is empty.
pub open spec fn concat(a: Seq<char>, b: Seq<char>) -> Seq<char> {
    if a.len() == 0 {
        b
    } else if b.len() == 0 {
        a
    } else {
        a + seq!['.'] + b
    }
}

/// An address into a document, kept as its dotted text.
#[derive(Debug)]
pub struct Path {
    path: String,
}

impl View for Path {
    type V = Seq<char>;

    closed spec fn view(&self) -> Seq<char> {
        self.path@
    }
}

/// Whether two string slices hold the same characters.
pub fn same_text(a: &str, b: &str) -> (r: bool)
    ensures
        r == (a@ == b@),
{
    let n = a.unicode_len();
    if n != b.unicode_len() {
        return false;
    }
    let mut i: usize = 0;
    while i < n
        invariant
            n == a@.len(),
            n == b@.len(),
            i <= n,
            forall|k: int| 0 <= k < i ==> a@[k] == b@[k],
        decreases n - i,
    {
        if a.get_char(i) != b.get_char(i) {
            return false;
        }
        i = i + 1;
    }
    assert(a@ =~= b@);
    true
}

impl Path {
    /// The root path, with no segments.
    pub fn empty() -> (r: Path)
        ensures
            r@ == Seq::<char>::empty(),
    {
        Path { path: String::new() }
    }

    /// The path whose text is `segments` joined with dots.
    pub fn from_segments(segments: &[&str]) -> (r: Path)
        ensures
            r@ == join_dots(views(segments@)),
    {
        let mut text = String::new();
        let mut i: usize = 0;
        while i < segments.len()
            invariant
                i <= segments@.len(),
                text@ == join_dots(views(segments@).take(i as int)),
            decreases segments@.len() - i,
        {
            let ghost before = views(segments@).take(i as int);
            let ghost after = views(segments@).take(i + 1);
            assert(after.drop_last() =~= before);
            if i > 0 {
                text.append(".");
                proof {
                    reveal_strlit(".");
                }
            }
            text.append(segments[i]);
            assert(text@ =~= join_dots(after));
            i = i + 1;
        }
        assert(views(segments@).take(segments@.len() as int) =~= views(segments@));
        Path { path: text }
    }

    /// The segments of this path: its pieces between dots, without the empty
    /// ones.
    pub fn get_segments(&self) -> (r: Vec<&str>)
        ensures
            views(r@) == segments_of(self@),
    {
        let s = self.path.as_str();
        let n = s.unicode_len();
        let mut out: Vec<&str> = Vec::new();
        let mut start: usize = 0;
        let mut i: usize = 0;
        assert(s@.take(0) =~= seq![]);
        assert(s@.subrange(0, 0) =~= seq![]);
        assert(views(out@) =~= seq![]);
        while i < n
            invariant
                n == s@.len(),
                s@ == self@,
                start <= i <= n,
                views(out@) == scan(s@.take(i as int)).0,
                s@.subrange(start as int, i as int) == scan(s@.take(i as int)).1,
            decreases n - i,
        {
            let ghost t = s@.take(i + 1);
            assert(t.drop_last() =~= s@.take(i as int));
            let c = s.get_char(i);
            if c == '.' {
                if start < i {
                    let piece = s.substring_char(start, i);
                    let ghost prev = out@;
                    out.push(piece);
                    assert(views(out@) =~= views(prev).push(piece@));
                }
                start = i + 1;
                assert(s@.subrange(start as int, i + 1) =~= seq![]);
            } else {
                assert(s@.subrange(start as int, i + 1) =~= s@.subrange(start as int, i as int).push(c));
            }
            i = i + 1;
        }
        assert(s@.take(n as int) =~= s@);
        if start < n {
            let piece = s.substring_char(start, n);
            let ghost prev = out@;
            out.push(piece);
            assert(views(out@) =~= views(prev).push(piece@));
        }
        out
    }

    /// The text of this path, as it was given.
    pub fn as_str(&self) -> (r: &str)
        ensures
            r@ == self@,
    {
        self.path.as_str()
    }

    /// The text of this path, as it was given.
    pub fn to_string(&self) -> (r: String)
        ensures
            r@ == self@,
    {
        self.path.clone()
    }

    /// `self` followed by `rhs`: one `.` between them when both are
    /// non-empty, and the other side unchanged when one is empty.
    pub fn join(&self, rhs: &Path) -> (r: Path)
        ensures
            r@ == concat(self@, rhs@),
    {
        if self.path.as_str().is_empty() {
            return Path { path: rhs.path.clone() };
        }
        if rhs.path.as_str().is_empty() {
            return Path { path: self.path.clone() };
        }
        let mut text = self.path.clone();
        text.append(".");
        proof {
            reveal_strlit(".");
        }
        text.append(rhs.path.as_str());
        Path { path: text }
    }
}

/// Joining with the root path, on either side, gives the other path's text
/// unchanged.
pub proof fn lemma_join_root(a: Path)
    ensures
        concat(Seq::empty(), a@) == a@,
        concat(a@, Seq::empty()) == a@,
{
}

/// A text made of dots alone (or of nothing) is the root path: it has no
/// segments.
pub proof fn lemma_dots_are_root(s: Seq<char>)
    requires
        forall|i: int| 0 <= i < s.len() ==> s[i] == '.',
    ensures
        segments_of(s) == Seq::<Seq<char>>::empty(),
{
    lemma_scan_dots(s);
}

proof fn lemma_scan_dots(s: Seq<char>)
    requires
        forall|i: int| 0 <= i < s.len() ==> s[i] == '.',
    ensures
        scan(s).0 == Seq::<Seq<char>>::empty(),
        scan(s).1 == Seq::<char>::empty(),
    decreases s.len(),
{
    if s.len() > 0 {
        lemma_scan_dots(s.drop_last());
    }
}

impl Default for Path {
    fn default() -> (r: Path)
        ensures
            r@ == Seq::<char>::empty(),
    {
        Path::empty()
    }
}

impl Clone for Path {
    fn clone(&self) -> (r: Path)
        ensures
            r@ == self@,
    {
        Path { path: self.path.clone() }
    }
}

impl PartialEq for Path {
    /// Two paths are equal when they have the same segments.
    fn eq(&self, other: &Path) -> (r: bool) {
        let a = self.get_segments();
        let b = other.get_segments();
        if a.len() != b.len() {
            assert(views(a@).len() != views(b@).len());
            return false;
        }
        let mut i: usize = 0;
        while i < a.len()
            invariant
                a@.len() == b@.len(),
                i <= a@.len(),
                views(a@) == segments_of(self@),
                views(b@) == segments_of(other@),
                forall|k: int| 0 <= k < i ==> a@[k]@ == b@[k]@,
            decreases a@.len() - i,
        {
            if !same_text(a[i], b[i]) {
                assert(views(a@)[i as int] != views(b@)[i as int]);
                return false;
            }
            i = i + 1;
        }
        assert(views(a@) =~= views(b@));
        true
    }
}

impl vstd::std_specs::cmp::PartialEqSpecImpl for Path {
    open spec fn obeys_eq_spec() -> bool {
        true
    }

    open spec fn eq_spec(&self, other: &Path) -> bool {
        segments_of(self@) == segments_of(other@)
    }
}

impl From<&str> for Path {
    fn from(path: &str) -> (r: Path)
        ensures
            r@ == path@,
    {
        Path { path: path.to_owned() }
    }
}

impl vstd::std_specs::convert::FromSpecImpl<&str> for Path {
    open spec fn obeys_from_spec() -> bool {
        false
    }

    open spec fn from_spec(path: &str) -> Path {
        arbitrary()
    }
}

impl From<String> for Path {
    fn from(path: String) -> (r: Path)
        ensures
            r@ == path@,
    {
        Path { path }
    }
}

impl vstd::std_specs::convert::FromSpecImpl<String> for Path {
    open spec fn obeys_from_spec() -> bool {
        false
    }

    open spec fn from_spec(path: String) -> Path {
        arbitrary()
    }
}

impl<'a> core::ops::Add<&'a Path> for &'a Path {
    type Output = Path;

    fn add(self, rhs: &'a Path) -> (r: Path)
        ensures
            r@ == concat(self@, rhs@),
    {
        self.join(rhs)
    }
}

impl<'a> vstd::std_specs::ops::AddSpecImpl<&'a Path> for &'a Path {
    open spec fn obeys_add_spec() -> bool {
        false
    }

    open spec fn add_req(self, rhs: &'a Path) -> bool {
        true
    }

    open spec fn add_spec(self, rhs: &'a Path) -> Path {
        arbitrary()
    }
}

impl<'a> core::ops::Add<Path> for &'a Path {
    type Output = Path;

    fn add(self, rhs: Path) -> (r: Path)
        ensures
            r@ == concat(self@, rhs@),
    {
        self.join(&rhs)
    }
}

impl<'a> vstd::std_specs::ops::AddSpecImpl<Path> for &'a Path {
    open spec fn obeys_add_spec() -> bool {
        false
    }

    open spec fn add_req(self, rhs: Path) -> bool {
        true
    }

    open spec fn add_spec(self, rhs: Path) -> Path {
        arbitrary()
    }
}

} // verus!
