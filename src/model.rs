//! The mathematical model of the path operations, over `Json` values and
//! sequences of segments.

use vstd::prelude::*;

use crate::index::index_of;
use crate::json::{kind_of, Json, ValueKind};

verus! {

/// The value that fills a new container slot: an empty mapping.
pub open spec fn placeholder() -> Json {
    Json::Object(seq![])
}

/// `n` placeholders.
pub open spec fn placeholders(n: nat) -> Seq<Json> {
    Seq::new(n, |i: int| placeholder())
}

/// Whether `i` is the first entry of `es` under key `k`.
pub open spec fn is_first_key(es: Seq<(Seq<char>, Json)>, k: Seq<char>, i: int) -> bool {
    &&& 0 <= i < es.len()
    &&& es[i].0 == k
    &&& forall|j: int| 0 <= j < i ==> es[j].0 != k
}

/// The position of the first entry under key `k`, or -1 when there is none.
pub open spec fn key_index(es: Seq<(Seq<char>, Json)>, k: Seq<char>) -> int {
    if exists|i: int| is_first_key(es, k, i) {
        choose|i: int| is_first_key(es, k, i)
    } else {
        -1
    }
}

/// The child of `j` that one segment selects, if any.
pub open spec fn child(j: Json, seg: Seq<char>) -> Option<Json> {
    match j {
        Json::Object(es) => if key_index(es, seg) >= 0 {
            Some(es[key_index(es, seg)].1)
        } else {
            None
        },
        Json::Array(a) => match index_of(seg) {
            Some(n) => if n < a.len() {
                Some(a[n as int])
            } else {
                None
            },
            None => None,
        },
        _ => None,
    }
}

/// The value that `segs` reaches from `j`, if any.
pub open spec fn get_in(j: Json, segs: Seq<Seq<char>>) -> Option<Json>
    decreases segs.len(),
{
    if segs.len() == 0 {
        Some(j)
    } else {
        match child(j, segs[0]) {
            Some(c) => get_in(c, segs.drop_first()),
            None => None,
        }
    }
}

/// `a`, extended with placeholders to at least `n` items.
pub open spec fn grow(a: Seq<Json>, n: nat) -> Seq<Json> {
    if n <= a.len() {
        a
    } else {
        a + placeholders((n - a.len()) as nat)
    }
}

/// The items of the array at a path after resizing it to `n`: what `found`
/// holds if it is an array, else nothing, truncated or extended with
/// placeholders to exactly `n` items.
pub open spec fn resized(found: Option<Json>, n: nat) -> Seq<Json> {
    let a = match found {
        Some(Json::Array(a)) => a,
        _ => seq![],
    };
    if n <= a.len() {
        a.take(n as int)
    } else {
        grow(a, n)
    }
}

/// What stops a path operation, in the model.
pub enum Fault {
    /// A segment that must index an array is no index.
    InvalidIndex,
    /// A value of this kind has no children to reach or remove.
    TypeMismatch(ValueKind),
    /// Nothing is at the parent of the value to remove.
    MissingBase,
}

/// Inserts `v` at `segs` under `j`, creating missing mapping entries and
/// growing arrays on the way. Returns the new value and, if the walk failed,
/// how many segments it consumed before the failing one and why.
pub open spec fn insert_in(j: Json, segs: Seq<Seq<char>>, v: Json) -> (Json, Option<(nat, Fault)>)
    decreases segs.len(),
{
    if segs.len() == 0 {
        (v, None)
    } else {
        let seg = segs[0];
        match j {
            Json::Object(es) => {
                let i = key_index(es, seg);
                let c = if i >= 0 {
                    es[i].1
                } else {
                    placeholder()
                };
                let (c2, f) = insert_in(c, segs.drop_first(), v);
                let es2 = if i >= 0 {
                    es.update(i, (seg, c2))
                } else {
                    es.push((seg, c2))
                };
                (Json::Object(es2), deeper(f))
            },
            Json::Array(a) => match index_of(seg) {
                Some(n) => {
                    let g = grow(a, n + 1);
                    let (c2, f) = insert_in(g[n as int], segs.drop_first(), v);
                    (Json::Array(g.update(n as int, c2)), deeper(f))
                },
                None => (j, Some((0, Fault::InvalidIndex))),
            },
            _ => (j, Some((0, Fault::TypeMismatch(kind_of(j))))),
        }
    }
}

/// A failure one segment further down.
pub open spec fn deeper(f: Option<(nat, Fault)>) -> Option<(nat, Fault)> {
    match f {
        Some((d, k)) => Some((d + 1, k)),
        None => None,
    }
}

/// Removes the value at `segs` under `j`. Returns the new value and either
/// the removed value, if there was one, or why nothing could be removed.
/// The empty path removes all of `j` and leaves an empty mapping. The parent
/// is written back with `insert_in`, which on a path that reaches a value
/// replaces that value and nothing else.
pub open spec fn remove_in(j: Json, segs: Seq<Seq<char>>) -> (Json, Result<Option<Json>, Fault>) {
    if segs.len() == 0 {
        (placeholder(), Ok(Some(j)))
    } else {
        let base = segs.drop_last();
        let last = segs.last();
        match get_in(j, base) {
            None => (j, Err(Fault::MissingBase)),
            Some(Json::Object(es)) => {
                let i = key_index(es, last);
                if i >= 0 {
                    (insert_in(j, base, Json::Object(es.remove(i))).0, Ok(Some(es[i].1)))
                } else {
                    (j, Ok(None))
                }
            },
            Some(Json::Array(a)) => match index_of(last) {
                Some(n) => if n < a.len() {
                    (insert_in(j, base, Json::Array(a.remove(n as int))).0, Ok(Some(a[n as int])))
                } else {
                    (j, Ok(None))
                },
                None => (j, Err(Fault::InvalidIndex)),
            },
            Some(x) => (j, Err(Fault::TypeMismatch(kind_of(x)))),
        }
    }
}

pub proof fn lemma_first_key(es: Seq<(Seq<char>, Json)>, k: Seq<char>, i: int)
    requires
        is_first_key(es, k, i),
    ensures
        key_index(es, k) == i,
{
    let c = choose|i: int| is_first_key(es, k, i);
    assert(is_first_key(es, k, c));
    if c < i {
        assert(es[c].0 != k);
    } else if c > i {
        assert(es[i].0 != k);
    }
}

pub proof fn lemma_no_key(es: Seq<(Seq<char>, Json)>, k: Seq<char>)
    requires
        forall|j: int| 0 <= j < es.len() ==> es[j].0 != k,
    ensures
        key_index(es, k) == -1,
{
}

/// Inserting the value that a path already reaches changes nothing.
pub proof fn lemma_insert_existing(j: Json, segs: Seq<Seq<char>>)
    requires
        get_in(j, segs) is Some,
    ensures
        insert_in(j, segs, get_in(j, segs)->0) == (j, None::<(nat, Fault)>),
    decreases segs.len(),
{
    if segs.len() > 0 {
        let seg = segs[0];
        let x = get_in(j, segs)->0;
        match j {
            Json::Object(es) => {
                let i = key_index(es, seg);
                lemma_insert_existing(es[i].1, segs.drop_first());
                assert(es[i].0 == seg) by {
                    assert(is_first_key(es, seg, i));
                }
                assert(es.update(i, (seg, es[i].1)) =~= es);
            },
            Json::Array(a) => {
                let n = index_of(seg)->0;
                lemma_insert_existing(a[n as int], segs.drop_first());
                assert(a.update(n as int, a[n as int]) =~= a);
            },
            _ => {},
        }
    }
}

/// After a successful insert, the path reaches the inserted value.
pub proof fn lemma_insert_then_get(j: Json, segs: Seq<Seq<char>>, v: Json)
    requires
        insert_in(j, segs, v).1 is None,
    ensures
        get_in(insert_in(j, segs, v).0, segs) == Some(v),
    decreases segs.len(),
{
    if segs.len() > 0 {
        let seg = segs[0];
        let rest = segs.drop_first();
        match j {
            Json::Object(es) => {
                let i = key_index(es, seg);
                let c = if i >= 0 {
                    es[i].1
                } else {
                    placeholder()
                };
                lemma_insert_then_get(c, rest, v);
                let c2 = insert_in(c, rest, v).0;
                if i >= 0 {
                    let es2 = es.update(i, (seg, c2));
                    assert(is_first_key(es, seg, i));
                    assert(is_first_key(es2, seg, i));
                    lemma_first_key(es2, seg, i);
                } else {
                    let es2 = es.push((seg, c2));
                    assert forall|k: int| 0 <= k < es.len() implies es[k].0 != seg by {
                        if es[k].0 == seg {
                            lemma_some_first_key(es, seg, k);
                        }
                    }
                    assert(is_first_key(es2, seg, es.len() as int));
                    lemma_first_key(es2, seg, es.len() as int);
                }
            },
            Json::Array(a) => {
                let n = index_of(seg)->0;
                let g = grow(a, n + 1);
                lemma_insert_then_get(g[n as int], rest, v);
            },
            _ => {},
        }
    }
}

/// Where some entry has key `k`, one is the first.
pub proof fn lemma_some_first_key(es: Seq<(Seq<char>, Json)>, k: Seq<char>, i: int)
    requires
        0 <= i < es.len(),
        es[i].0 == k,
    ensures
        key_index(es, k) >= 0,
    decreases i,
{
    if exists|j: int| 0 <= j < i && es[j].0 == k {
        let j = choose|j: int| 0 <= j < i && es[j].0 == k;
        lemma_some_first_key(es, k, j);
    } else {
        assert(is_first_key(es, k, i));
    }
}

/// Inserting below an empty mapping always succeeds: every container on the
/// way is a new mapping, and the path then reaches the value.
pub proof fn lemma_insert_into_empty(segs: Seq<Seq<char>>, v: Json)
    ensures
        insert_in(placeholder(), segs, v).1 is None,
        get_in(insert_in(placeholder(), segs, v).0, segs) == Some(v),
        forall|k: int|
            0 <= k < segs.len() ==> get_in(insert_in(placeholder(), segs, v).0, #[trigger] segs.take(k)) matches Some(
                Json::Object(_),
            ),
    decreases segs.len(),
{
    if segs.len() > 0 {
        let seg = segs[0];
        let rest = segs.drop_first();
        lemma_insert_into_empty(rest, v);
        let c2 = insert_in(placeholder(), rest, v).0;
        let es2 = seq![(seg, c2)];
        assert(key_index(seq![], seg) == -1);
        assert(seq![].push((seg, c2)) =~= es2);
        assert(is_first_key(es2, seg, 0));
        lemma_first_key(es2, seg, 0);
        assert forall|k: int| 0 <= k < segs.len() implies get_in(
            insert_in(placeholder(), segs, v).0,
            #[trigger] segs.take(k),
        ) matches Some(Json::Object(_)) by {
            if k > 0 {
                assert(segs.take(k).drop_first() =~= rest.take(k - 1));
                assert(segs.take(k)[0] == seg);
            }
        }
        lemma_insert_then_get(placeholder(), segs, v);
    }
}

/// A failed insert changes nothing: the walk only fails on values that were
/// already there, before it has created anything.
pub proof fn lemma_failed_insert_unchanged(j: Json, segs: Seq<Seq<char>>, v: Json)
    requires
        insert_in(j, segs, v).1 is Some,
    ensures
        insert_in(j, segs, v).0 == j,
    decreases segs.len(),
{
    if segs.len() > 0 {
        let seg = segs[0];
        let rest = segs.drop_first();
        match j {
            Json::Object(es) => {
                let i = key_index(es, seg);
                if i >= 0 {
                    lemma_failed_insert_unchanged(es[i].1, rest, v);
                    assert(is_first_key(es, seg, i));
                    assert(es.update(i, (seg, es[i].1)) =~= es);
                } else {
                    lemma_insert_into_empty(rest, v);
                }
            },
            Json::Array(a) => {
                match index_of(seg) {
                    Some(n) => {
                        if n < a.len() {
                            assert(grow(a, n + 1) == a);
                            lemma_failed_insert_unchanged(a[n as int], rest, v);
                            assert(a.update(n as int, a[n as int]) =~= a);
                        } else {
                            lemma_insert_into_empty(rest, v);
                        }
                    },
                    None => {},
                }
            },
            _ => {},
        }
    }
}

} // verus!
