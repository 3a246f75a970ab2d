//! The document: one JSON value addressed by paths.

use vstd::prelude::*;

use crate::index::parse_index;
use crate::json::{entries_view, items_view, Json, JsonValue, ValueKind};
use crate::model::{
    get_in, grow, insert_in, key_index, lemma_failed_insert_unchanged, lemma_first_key,
    lemma_insert_existing, lemma_insert_into_empty, lemma_insert_then_get, lemma_no_key, placeholder,
    remove_in, resized, Fault,
};
use crate::path::{join_dots, segments_of, views, Path};

verus! {

broadcast use crate::json::group_json_view;

/// Why a path operation failed.
#[derive(Debug)]
pub enum PathError {
    /// `segment`, under `base`, must index an array and is no non-negative
    /// integer.
    InvalidIndex { base: Path, segment: String },
    /// The value at `base`, of kind `kind`, has no child `segment`.
    TypeMismatch { base: Path, segment: String, kind: ValueKind },
    /// Nothing is at `base`.
    MissingBase { base: Path },
}

/// Whether `e` reports `fault` for the segment at position `d` of `segs`.
pub open spec fn describes(e: PathError, segs: Seq<Seq<char>>, d: int, fault: Fault) -> bool {
    match (e, fault) {
        (PathError::InvalidIndex { base, segment }, Fault::InvalidIndex) => {
            &&& base@ == join_dots(segs.take(d))
            &&& segment@ == segs[d]
        },
        (PathError::TypeMismatch { base, segment, kind }, Fault::TypeMismatch(k)) => {
            &&& base@ == join_dots(segs.take(d))
            &&& segment@ == segs[d]
            &&& kind == k
        },
        (PathError::MissingBase { base }, Fault::MissingBase) => base@ == join_dots(segs.take(d)),
        _ => false,
    }
}

/// Whether `r` is the outcome that `f` gives, for a walk that began at
/// position `start` of `segs`.
pub open spec fn reports<T>(r: Result<T, PathError>, f: Option<(nat, Fault)>, segs: Seq<Seq<char>>, start: int) -> bool {
    match f {
        None => r is Ok,
        Some((d, fault)) => match r {
            Err(e) => describes(e, segs, start + d, fault),
            Ok(_) => false,
        },
    }
}

/// The position of the first entry under `k`.
fn find_key(es: &Vec<(String, JsonValue)>, k: &str) -> (r: Option<usize>)
    ensures
        r matches Some(i) ==> i < es@.len() && key_index(entries_view(es@), k@) == i,
        r is None ==> key_index(entries_view(es@), k@) == -1,
{
    let key = k.to_owned();
    let ghost ev = entries_view(es@);
    let mut i: usize = 0;
    while i < es.len()
        invariant
            i <= es@.len(),
            key@ == k@,
            ev == entries_view(es@),
            forall|j: int| 0 <= j < i ==> ev[j].0 != k@,
        decreases es@.len() - i,
    {
        if es[i].0 == key {
            proof {
                lemma_first_key(ev, k@, i as int);
            }
            return Some(i);
        }
        i = i + 1;
    }
    proof {
        lemma_no_key(ev, k@);
    }
    None
}

/// Pushes placeholders onto `a` until it has more than `n` items.
fn pad_past(a: &mut Vec<JsonValue>, n: usize)
    ensures
        items_view(final(a)@) == grow(items_view(old(a)@), n as nat + 1),
        final(a)@.len() > n,
{
    let ghost orig = items_view(a@);
    while a.len() <= n
        invariant
            orig.len() <= a@.len(),
            a@.len() == orig.len() || a@.len() <= n + 1,
            items_view(a@) == grow(orig, a@.len() as nat),
        decreases n + 1 - a@.len(),
    {
        let ghost prev = a@;
        let e = JsonValue::empty_object();
        a.push(e);
        assert(a@ == prev.push(e));
        assert(items_view(a@) =~= items_view(prev).push(placeholder()));
        assert(grow(orig, a@.len() as nat) =~= grow(orig, prev.len() as nat).push(placeholder()));
    }
    assert(grow(orig, a@.len() as nat) =~= grow(orig, n as nat + 1));
}

/// The path made of the first `i` segments.
fn prefix_path(segs: &[&str], i: usize) -> (r: Path)
    requires
        i <= segs@.len(),
    ensures
        r@ == join_dots(views(segs@).take(i as int)),
{
    let (head, _) = segs.split_at(i);
    assert(views(head@) =~= views(segs@).take(i as int));
    Path::from_segments(head)
}

/// Inserts `value` at the segments of `segs` from position `i` on, below `v`.
fn insert_rec(v: &mut JsonValue, segs: &[&str], i: usize, value: JsonValue) -> (r: Result<(), PathError>)
    requires
        i <= segs@.len(),
    ensures
        final(v)@ == insert_in(old(v)@, views(segs@).skip(i as int), value@).0,
        reports(r, insert_in(old(v)@, views(segs@).skip(i as int), value@).1, views(segs@), i as int),
    decreases segs@.len() - i,
{
    let ghost all = views(segs@);
    let ghost rest = all.skip(i as int);
    if i == segs.len() {
        assert(rest =~= seq![]);
        *v = value;
        return Ok(());
    }
    let seg: &str = segs[i];
    assert(rest[0] == seg@);
    assert(rest.drop_first() =~= all.skip(i + 1));
    let ghost old_v = v@;
    match v {
        JsonValue::Object(es) => {
            let ghost ev = entries_view(es@);
            let idx = match find_key(es, seg) {
                Some(k) => k,
                None => {
                    es.push((seg.to_owned(), JsonValue::empty_object()));
                    es.len() - 1
                },
            };
            let ghost mid = es@;
            let entry = &mut es[idx];
            let r = insert_rec(&mut entry.1, segs, i + 1, value);
            proof {
                let c2 = insert_in(mid[idx as int].1@, all.skip(i + 1), value@).0;
                if key_index(ev, seg@) >= 0 {
                    assert(entries_view(es@) =~= ev.update(idx as int, (seg@, c2)));
                } else {
                    assert(entries_view(es@) =~= ev.push((seg@, c2)));
                }
            }
            r
        },
        JsonValue::Array(a) => {
            match parse_index(seg) {
                None => Err(PathError::InvalidIndex { base: prefix_path(segs, i), segment: seg.to_owned() }),
                Some(n) => {
                    pad_past(a, n);
                    let ghost grown = items_view(a@);
                    let item = &mut a[n];
                    let r = insert_rec(item, segs, i + 1, value);
                    proof {
                        let c2 = insert_in(grown[n as int], all.skip(i + 1), value@).0;
                        assert(items_view(a@) =~= grown.update(n as int, c2));
                    }
                    r
                },
            }
        },
        _ => {
            let kind = v.kind();
            Err(PathError::TypeMismatch { base: prefix_path(segs, i), segment: seg.to_owned(), kind })
        },
    }
}

/// The value of entry `k`, to write through.
fn value_mut(es: &mut Vec<(String, JsonValue)>, k: usize) -> (r: &mut JsonValue)
    requires
        k < old(es)@.len(),
    ensures
        *r == old(es)@[k as int].1,
        final(es)@ == old(es)@.update(k as int, (old(es)@[k as int].0, *final(r))),
{
    let entry = &mut es[k];
    &mut entry.1
}

/// The value that the segments of `segs` from position `i` on reach below `v`.
fn get_rec<'a>(v: &'a JsonValue, segs: &[&str], i: usize) -> (r: Option<&'a JsonValue>)
    requires
        i <= segs@.len(),
    ensures
        r matches Some(x) ==> get_in(v@, views(segs@).skip(i as int)) == Some(x@),
        r is None ==> get_in(v@, views(segs@).skip(i as int)) is None,
    decreases segs@.len() - i,
{
    let ghost all = views(segs@);
    let ghost rest = all.skip(i as int);
    if i == segs.len() {
        assert(rest =~= seq![]);
        return Some(v);
    }
    let seg: &str = segs[i];
    assert(rest[0] == seg@);
    assert(rest.drop_first() =~= all.skip(i + 1));
    match v {
        JsonValue::Object(es) => {
            match find_key(es, seg) {
                Some(k) => get_rec(&es[k].1, segs, i + 1),
                None => None,
            }
        },
        JsonValue::Array(a) => {
            match parse_index(seg) {
                Some(n) => if n < a.len() {
                    get_rec(&a[n], segs, i + 1)
                } else {
                    None
                },
                None => None,
            }
        },
        _ => None,
    }
}

/// A mutable reference to the value that the segments of `segs` from
/// position `i` on reach below `v`. Writing through it is inserting there.
fn get_mut_rec<'a>(v: &'a mut JsonValue, segs: &[&str], i: usize) -> (r: Option<&'a mut JsonValue>)
    requires
        i <= segs@.len(),
    ensures
        r is Some ==> get_in(old(v)@, views(segs@).skip(i as int)) == Some((*r.unwrap())@)
            && insert_in(old(v)@, views(segs@).skip(i as int), (*final(r.unwrap()))@) == (final(v)@, None::<(nat, Fault)>),
        r is None ==> get_in(old(v)@, views(segs@).skip(i as int)) is None,
        r is None ==> final(v)@ == old(v)@,
    decreases segs@.len() - i,
{
    let ghost all = views(segs@);
    let ghost rest = all.skip(i as int);
    if i == segs.len() {
        assert(rest =~= seq![]);
        return Some(v);
    }
    let seg: &str = segs[i];
    assert(rest[0] == seg@);
    assert(rest.drop_first() =~= all.skip(i + 1));
    let step: Option<usize> = match &*v {
        JsonValue::Object(es) => find_key(es, seg),
        JsonValue::Array(a) => match parse_index(seg) {
            Some(n) => if n < a.len() {
                Some(n)
            } else {
                None
            },
            None => None,
        },
        _ => None,
    };
    let k = match step {
        Some(k) => k,
        None => return None,
    };
    match v {
        JsonValue::Object(es) => get_mut_rec(value_mut(es, k), segs, i + 1),
        JsonValue::Array(a) => get_mut_rec(&mut a[k], segs, i + 1),
        _ => None,
    }
}

/// Truncates `a`, or extends it with placeholders, to exactly `n` items.
fn resize_items(a: &mut Vec<JsonValue>, n: usize)
    ensures
        items_view(final(a)@) == resized(Some(Json::Array(items_view(old(a)@))), n as nat),
{
    if n <= a.len() {
        a.truncate(n);
        assert(items_view(a@) =~= items_view(old(a)@).take(n as int));
    } else {
        pad_past(a, n - 1);
    }
}

/// A document: one JSON value, read and written by paths.
#[derive(Debug, PartialEq)]
pub struct InputsData(pub JsonValue);

impl InputsData {
    /// The value at `path`, if there is one.
    pub fn get_at(&self, path: &Path) -> (r: Option<&JsonValue>)
        ensures
            r matches Some(x) ==> get_in(self.0@, segments_of(path@)) == Some(x@),
            r is None ==> get_in(self.0@, segments_of(path@)) is None,
    {
        let segs = path.get_segments();
        assert(views(segs@).skip(0) =~= views(segs@));
        get_rec(&self.0, segs.as_slice(), 0)
    }

    /// A mutable reference to the value at `path`, if there is one. It
    /// reaches the same value as `get_at`, and writing through it is inserting
    /// at `path`.
    pub fn get_at_mut(&mut self, path: &Path) -> (r: Option<&mut JsonValue>)
        ensures
            r is Some ==> get_in(old(self).0@, segments_of(path@)) == Some((*r.unwrap())@)
                && insert_in(old(self).0@, segments_of(path@), (*final(r.unwrap()))@) == (final(self).0@, None::<(nat, Fault)>),
            r is None ==> get_in(old(self).0@, segments_of(path@)) is None,
            r is None ==> final(self).0@ == old(self).0@,
    {
        let segs = path.get_segments();
        assert(views(segs@).skip(0) =~= views(segs@));
        get_mut_rec(&mut self.0, segs.as_slice(), 0)
    }

    /// Writes `value` at `path`, creating missing mapping entries and growing
    /// arrays with placeholders on the way. Fails where a segment must index
    /// an array and is no index, or where a segment is to be read below a
    /// value that is neither a mapping nor an array; what was created before
    /// the failure stays.
    pub fn insert_at(&mut self, path: &Path, value: JsonValue) -> (r: Result<(), PathError>)
        ensures
            final(self).0@ == insert_in(old(self).0@, segments_of(path@), value@).0,
            reports(r, insert_in(old(self).0@, segments_of(path@), value@).1, segments_of(path@), 0),
    {
        let segs = path.get_segments();
        assert(views(segs@).skip(0) =~= views(segs@));
        insert_rec(&mut self.0, segs.as_slice(), 0, value)
    }

    /// Makes the value at `path` an array of exactly `new_size` items: an
    /// array there keeps its first items, anything else is replaced by an
    /// empty array first (which creates the path as `insert_at` does); new
    /// items are placeholders.
    pub fn resize_array_at(&mut self, path: &Path, new_size: usize) -> (r: Result<(), PathError>)
        ensures
            final(self).0@ == insert_in(
                old(self).0@,
                segments_of(path@),
                Json::Array(resized(get_in(old(self).0@, segments_of(path@)), new_size as nat)),
            ).0,
            reports(
                r,
                insert_in(
                    old(self).0@,
                    segments_of(path@),
                    Json::Array(resized(get_in(old(self).0@, segments_of(path@)), new_size as nat)),
                ).1,
                segments_of(path@),
                0,
            ),
    {
        let segs = path.get_segments();
        assert(views(segs@).skip(0) =~= views(segs@));
        let is_array = match get_rec(&self.0, segs.as_slice(), 0) {
            Some(JsonValue::Array(_)) => true,
            _ => false,
        };
        if is_array {
            match get_mut_rec(&mut self.0, segs.as_slice(), 0) {
                Some(JsonValue::Array(a)) => {
                    resize_items(a, new_size);
                    Ok(())
                },
                _ => Ok(()),
            }
        } else {
            let mut items: Vec<JsonValue> = Vec::new();
            resize_items(&mut items, new_size);
            assert(items_view(Seq::<JsonValue>::empty()) =~= seq![]);
            insert_rec(&mut self.0, segs.as_slice(), 0, JsonValue::Array(items))
        }
    }

    /// Removes the value at `path` and returns it. An entry of a mapping is
    /// taken out; an item of an array is taken out and the later items move
    /// down by one. Nothing there is no error, but a parent path that reaches
    /// nothing, a last segment that is no index into an array, or a parent
    /// that is neither a mapping nor an array is. The root path takes the
    /// whole document and leaves an empty mapping.
    pub fn remove_at(&mut self, path: &Path) -> (r: Result<Option<JsonValue>, PathError>)
        ensures
            final(self).0@ == remove_in(old(self).0@, segments_of(path@)).0,
            match remove_in(old(self).0@, segments_of(path@)).1 {
                Ok(found) => match r {
                    Ok(Some(x)) => found == Some(x@),
                    Ok(None) => found is None,
                    Err(_) => false,
                },
                Err(fault) => match r {
                    Err(e) => describes(e, segments_of(path@), segments_of(path@).len() - 1, fault),
                    Ok(_) => false,
                },
            },
    {
        let segs = path.get_segments();
        let ghost all = views(segs@);
        if segs.len() == 0 {
            let mut previous = JsonValue::empty_object();
            core::mem::swap(&mut previous, &mut self.0);
            return Ok(Some(previous));
        }
        let n = segs.len() - 1;
        let last: &str = segs[n];
        let (base, _) = segs.as_slice().split_at(n);
        let ghost base_segs = views(base@);
        assert(base_segs =~= all.drop_last());
        assert(base_segs.skip(0) =~= base_segs);
        assert(all.take(n as int) =~= base_segs);
        let ghost before = self.0@;
        match get_mut_rec(&mut self.0, base, 0) {
            None => Err(PathError::MissingBase { base: Path::from_segments(base) }),
            Some(target) => {
                let ghost found = target@;
                proof {
                    lemma_insert_existing(before, base_segs);
                }
                match target {
                    JsonValue::Object(es) => match find_key(es, last) {
                        Some(k) => {
                            let removed = es.remove(k);
                            Ok(Some(removed.1))
                        },
                        None => Ok(None),
                    },
                    JsonValue::Array(a) => match parse_index(last) {
                        Some(i) => if i < a.len() {
                            Ok(Some(a.remove(i)))
                        } else {
                            Ok(None)
                        },
                        None => Err(PathError::InvalidIndex { base: Path::from_segments(base), segment: last.to_owned() }),
                    },
                    _ => {
                        let kind = target.kind();
                        Err(PathError::TypeMismatch { base: Path::from_segments(base), segment: last.to_owned(), kind })
                    },
                }
            },
        }
    }
}

impl Default for InputsData {
    /// An empty mapping.
    fn default() -> (r: InputsData)
        ensures
            r.0@ == placeholder(),
    {
        InputsData(JsonValue::empty_object())
    }
}

impl From<JsonValue> for InputsData {
    fn from(value: JsonValue) -> (r: InputsData)
        ensures
            r.0 == value,
    {
        InputsData(value)
    }
}

impl vstd::std_specs::convert::FromSpecImpl<JsonValue> for InputsData {
    open spec fn obeys_from_spec() -> bool {
        true
    }

    open spec fn from_spec(value: JsonValue) -> InputsData {
        InputsData(value)
    }
}

/// Writing `value` at `path` and then reading `path` gives `value` back,
/// whenever the write succeeds.
pub proof fn lemma_insert_at_then_get_at(doc: InputsData, path: Path, value: JsonValue)
    requires
        insert_in(doc.0@, segments_of(path@), value@).1 is None,
    ensures
        get_in(insert_in(doc.0@, segments_of(path@), value@).0, segments_of(path@)) == Some(value@),
{
    lemma_insert_then_get(doc.0@, segments_of(path@), value@);
}

/// On an empty document, a write at any path succeeds, every container
/// above the written value is a mapping, and reading the path gives the value
/// back.
pub proof fn lemma_insert_at_on_empty(path: Path, value: JsonValue)
    ensures
        insert_in(placeholder(), segments_of(path@), value@).1 is None,
        get_in(insert_in(placeholder(), segments_of(path@), value@).0, segments_of(path@)) == Some(value@),
        forall|k: int|
            0 <= k < segments_of(path@).len() ==> get_in(
                insert_in(placeholder(), segments_of(path@), value@).0,
                #[trigger] segments_of(path@).take(k),
            ) matches Some(Json::Object(_)),
{
    lemma_insert_into_empty(segments_of(path@), value@);
}

/// A write that fails leaves the document as it was.
pub proof fn lemma_failed_insert_at_unchanged(doc: InputsData, path: Path, value: JsonValue)
    requires
        insert_in(doc.0@, segments_of(path@), value@).1 is Some,
    ensures
        insert_in(doc.0@, segments_of(path@), value@).0 == doc.0@,
{
    lemma_failed_insert_unchanged(doc.0@, segments_of(path@), value@);
}

} // verus!
