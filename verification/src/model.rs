//! The mathematical model of the properties of a set: a finite map from
//! property ids to values, written as the sequence of its entries in
//! ascending order of id.
//!
//! Keeping the order in the model makes the layout of a written set a
//! function of the model alone.  The usual laws of a map are proved below.

use crate::value::PropertyValueView;
use vstd::prelude::*;

verus! {

/// Whether the ids of `e` ascend strictly.  Such a sequence holds each id at
/// most once.
pub open spec fn ascending(e: Seq<(u32, PropertyValueView)>) -> bool {
    forall|i: int, j: int| 0 <= i < j < e.len() ==> (#[trigger] e[i]).0 < (#[trigger] e[j]).0
}

/// Whether `p` is the place of `id` in `e`: every entry before `p` has a
/// smaller id, and every entry from `p` on has `id` or a larger one.
pub open spec fn is_rank(e: Seq<(u32, PropertyValueView)>, id: u32, p: int) -> bool {
    &&& 0 <= p <= e.len()
    &&& forall|i: int| 0 <= i < p ==> (#[trigger] e[i]).0 < id
    &&& forall|i: int| p <= i < e.len() ==> (#[trigger] e[i]).0 >= id
}

/// The place of `id` in an ascending `e`: where its entry stands, or where
/// it would have to be inserted.
pub open spec fn rank(e: Seq<(u32, PropertyValueView)>, id: u32) -> int {
    choose|p: int| is_rank(e, id, p)
}

/// Whether `e` has an entry for `id`.
pub open spec fn contains_id(e: Seq<(u32, PropertyValueView)>, id: u32) -> bool {
    0 <= rank(e, id) < e.len() && e[rank(e, id)].0 == id
}

/// The value of property `id`, if `e` has one.
pub open spec fn lookup(e: Seq<(u32, PropertyValueView)>, id: u32) -> Option<PropertyValueView> {
    if contains_id(e, id) {
        Some(e[rank(e, id)].1)
    } else {
        None
    }
}

/// `e` with property `id` set to `v`: the entry for `id` is replaced if
/// there is one, and put in its place if there is none.
pub open spec fn upsert(e: Seq<(u32, PropertyValueView)>, id: u32, v: PropertyValueView) -> Seq<
    (u32, PropertyValueView),
> {
    if contains_id(e, id) {
        e.update(rank(e, id), (id, v))
    } else {
        e.insert(rank(e, id), (id, v))
    }
}

/// `e` without property `id`.
pub open spec fn remove_id(e: Seq<(u32, PropertyValueView)>, id: u32) -> Seq<
    (u32, PropertyValueView),
> {
    if contains_id(e, id) {
        e.remove(rank(e, id))
    } else {
        e
    }
}

/// Whether `after` differs from `before` in property `id` alone, which is
/// now `now`: every other property is as it was.
pub open spec fn only_changed(
    before: Seq<(u32, PropertyValueView)>,
    after: Seq<(u32, PropertyValueView)>,
    id: u32,
    now: Option<PropertyValueView>,
) -> bool {
    forall|other: u32| #[trigger]
        lookup(after, other) == if other == id {
            now
        } else {
            lookup(before, other)
        }
}

/// An id has one place in an ascending sequence, and `rank` is that place.
pub proof fn lemma_rank(e: Seq<(u32, PropertyValueView)>, id: u32, p: int)
    requires
        is_rank(e, id, p),
    ensures
        rank(e, id) == p,
{
    let r = rank(e, id);
    assert(is_rank(e, id, r));
    if r < p {
        assert(e[r].0 < id);
    }
    if p < r {
        assert(e[p].0 < id);
    }
}

/// Every id has a place in an ascending sequence.
pub proof fn lemma_rank_exists(e: Seq<(u32, PropertyValueView)>, id: u32)
    requires
        ascending(e),
    ensures
        is_rank(e, id, rank(e, id)),
    decreases e.len(),
{
    if e.len() == 0 {
        assert(is_rank(e, id, 0));
    } else {
        let front = e.drop_last();
        assert forall|i: int, j: int| 0 <= i < j < front.len() implies (#[trigger] front[i]).0 < (
        #[trigger] front[j]).0 by {
            assert(front[i] == e[i] && front[j] == e[j]);
        }
        lemma_rank_exists(front, id);
        let p = rank(front, id);
        if p < front.len() {
            assert forall|i: int| p <= i < e.len() implies (#[trigger] e[i]).0 >= id by {
                if i < front.len() {
                    assert(front[i] == e[i]);
                } else {
                    assert(front[p] == e[p]);
                    assert(e[p].0 < e[i].0);
                }
            }
            assert forall|i: int| 0 <= i < p implies (#[trigger] e[i]).0 < id by {
                assert(front[i] == e[i]);
            }
            assert(is_rank(e, id, p));
        } else if e.last().0 < id {
            assert forall|i: int| 0 <= i < e.len() implies (#[trigger] e[i]).0 < id by {
                if i < front.len() {
                    assert(front[i] == e[i]);
                }
            }
            assert(is_rank(e, id, e.len() as int));
        } else {
            assert forall|i: int| 0 <= i < p implies (#[trigger] e[i]).0 < id by {
                assert(front[i] == e[i]);
            }
            assert(is_rank(e, id, p));
        }
    }
}

/// An id is found where an entry of an ascending sequence holds it, and
/// only there.
pub proof fn lemma_lookup_at(e: Seq<(u32, PropertyValueView)>, i: int)
    requires
        ascending(e),
        0 <= i < e.len(),
    ensures
        rank(e, e[i].0) == i,
        lookup(e, e[i].0) == Some(e[i].1),
{
    assert forall|j: int| 0 <= j < i implies (#[trigger] e[j]).0 < e[i].0 by {}
    assert forall|j: int| i <= j < e.len() implies (#[trigger] e[j]).0 >= e[i].0 by {
        if i < j {
            assert(e[i].0 < e[j].0);
        }
    }
    lemma_rank(e, e[i].0, i);
}

/// Setting a property keeps the sequence ascending.
pub proof fn lemma_upsert_ascending(e: Seq<(u32, PropertyValueView)>, id: u32, v: PropertyValueView)
    requires
        ascending(e),
    ensures
        ascending(upsert(e, id, v)),
{
    lemma_rank_exists(e, id);
    let p = rank(e, id);
    let r = upsert(e, id, v);
    if contains_id(e, id) {
        assert forall|i: int, j: int| 0 <= i < j < r.len() implies (#[trigger] r[i]).0 < (
        #[trigger] r[j]).0 by {
            assert(r[i].0 == e[i].0 && r[j].0 == e[j].0);
        }
    } else {
        assert forall|i: int, j: int| 0 <= i < j < r.len() implies (#[trigger] r[i]).0 < (
        #[trigger] r[j]).0 by {
            let a = if i < p {
                i
            } else {
                i - 1
            };
            let b = if j < p {
                j
            } else {
                j - 1
            };
            if i != p {
                assert(r[i] == e[a]);
            }
            if j != p {
                assert(r[j] == e[b]);
            }
        }
    }
}

/// Removing a property keeps the sequence ascending.
pub proof fn lemma_remove_ascending(e: Seq<(u32, PropertyValueView)>, id: u32)
    requires
        ascending(e),
    ensures
        ascending(remove_id(e, id)),
{
    lemma_rank_exists(e, id);
    let p = rank(e, id);
    let r = remove_id(e, id);
    if contains_id(e, id) {
        assert forall|i: int, j: int| 0 <= i < j < r.len() implies (#[trigger] r[i]).0 < (
        #[trigger] r[j]).0 by {
            let a = if i < p {
                i
            } else {
                i + 1
            };
            let b = if j < p {
                j
            } else {
                j + 1
            };
            assert(r[i] == e[a] && r[j] == e[b]);
        }
    }
}

/// The law of a map for setting: afterwards the property holds the new
/// value, and every other property is as it was.
pub proof fn lemma_lookup_upsert(
    e: Seq<(u32, PropertyValueView)>,
    id: u32,
    v: PropertyValueView,
    other: u32,
)
    requires
        ascending(e),
    ensures
        lookup(upsert(e, id, v), other) == if other == id {
            Some(v)
        } else {
            lookup(e, other)
        },
{
    lemma_rank_exists(e, id);
    lemma_rank_exists(e, other);
    lemma_upsert_ascending(e, id, v);
    let p = rank(e, id);
    let q = rank(e, other);
    let r = upsert(e, id, v);
    if other == id {
        assert(r[p] == (id, v));
        lemma_lookup_at(r, p);
    } else if contains_id(e, id) {
        assert forall|i: int| 0 <= i < r.len() implies (#[trigger] r[i]).0 == e[i].0 by {}
        assert(is_rank(r, other, q));
        lemma_rank(r, other, q);
    } else {
        let q2 = if other < id {
            q
        } else {
            q + 1
        };
        assert forall|i: int| 0 <= i < q2 implies (#[trigger] r[i]).0 < other by {
            if i < p {
                assert(r[i] == e[i]);
            } else if i > p {
                assert(r[i] == e[i - 1]);
            }
        }
        assert forall|i: int| q2 <= i < r.len() implies (#[trigger] r[i]).0 >= other by {
            if i < p {
                assert(r[i] == e[i]);
            } else if i > p {
                assert(r[i] == e[i - 1]);
            }
        }
        assert(is_rank(r, other, q2));
        lemma_rank(r, other, q2);
        if q < e.len() {
            if q2 < p {
                assert(r[q2] == e[q]);
            } else if q2 > p {
                assert(r[q2] == e[q]);
            }
        }
    }
}

/// The law of a map for removing: afterwards the property is absent, and
/// every other property is as it was.
pub proof fn lemma_lookup_remove(e: Seq<(u32, PropertyValueView)>, id: u32, other: u32)
    requires
        ascending(e),
    ensures
        lookup(remove_id(e, id), other) == if other == id {
            None
        } else {
            lookup(e, other)
        },
{
    lemma_rank_exists(e, id);
    lemma_rank_exists(e, other);
    lemma_remove_ascending(e, id);
    let p = rank(e, id);
    let q = rank(e, other);
    let r = remove_id(e, id);
    if contains_id(e, id) {
        let q2 = if other <= id {
            q
        } else {
            q - 1
        };
        assert forall|i: int| 0 <= i < q2 implies (#[trigger] r[i]).0 < other by {
            if i < p {
                assert(r[i] == e[i]);
            } else {
                assert(r[i] == e[i + 1]);
            }
        }
        assert forall|i: int| q2 <= i < r.len() implies (#[trigger] r[i]).0 >= other by {
            if i < p {
                assert(r[i] == e[i]);
            } else {
                assert(r[i] == e[i + 1]);
                if other == id {
                    assert(e[p].0 < e[i + 1].0);
                }
            }
        }
        assert(is_rank(r, other, q2));
        lemma_rank(r, other, q2);
        if q2 < r.len() {
            if q2 < p {
                assert(r[q2] == e[q2]);
            } else {
                assert(r[q2] == e[q2 + 1]);
                if other == id {
                    assert(e[p].0 < e[q2 + 1].0);
                }
            }
        }
    }
}

/// Two ascending sequences that give every id the same value are the same
/// sequence: the model of a set is determined by the map that it stands for.
pub proof fn lemma_same_lookups(a: Seq<(u32, PropertyValueView)>, b: Seq<(u32, PropertyValueView)>)
    requires
        ascending(a),
        ascending(b),
        forall|id: u32| lookup(a, id) == lookup(b, id),
    ensures
        a == b,
    decreases a.len() + b.len(),
{
    if a.len() == 0 && b.len() == 0 {
        assert(a =~= b);
    } else if a.len() == 0 {
        lemma_lookup_at(b, 0);
        lemma_rank_exists(a, b[0].0);
        assert(lookup(a, b[0].0) is None);
    } else if b.len() == 0 {
        lemma_lookup_at(a, 0);
        lemma_rank_exists(b, a[0].0);
        assert(lookup(b, a[0].0) is None);
    } else {
        let x = a.last();
        let y = b.last();
        lemma_lookup_at(a, a.len() - 1);
        lemma_lookup_at(b, b.len() - 1);
        lemma_rank_exists(a, y.0);
        lemma_rank_exists(b, x.0);
        // Each last id is found in the other sequence, so neither is larger.
        assert(lookup(b, x.0) == Some(x.1));
        assert(lookup(a, y.0) == Some(y.1));
        assert(b[rank(b, x.0)].0 == x.0);
        assert(a[rank(a, y.0)].0 == y.0);
        if rank(b, x.0) < b.len() - 1 {
            assert(b[rank(b, x.0)].0 < b[b.len() - 1].0);
        }
        if rank(a, y.0) < a.len() - 1 {
            assert(a[rank(a, y.0)].0 < a[a.len() - 1].0);
        }
        assert(x.0 == y.0);
        assert(x == y);
        let fa = a.drop_last();
        let fb = b.drop_last();
        assert(fa =~= remove_id(a, x.0));
        assert(fb =~= remove_id(b, x.0));
        lemma_remove_ascending(a, x.0);
        lemma_remove_ascending(b, x.0);
        assert forall|id: u32| lookup(fa, id) == lookup(fb, id) by {
            lemma_lookup_remove(a, x.0, id);
            lemma_lookup_remove(b, x.0, id);
        }
        lemma_same_lookups(fa, fb);
        assert(a =~= fa.push(x));
        assert(b =~= fb.push(y));
    }
}

/// Removing a property that is absent changes nothing.
pub proof fn lemma_remove_absent(e: Seq<(u32, PropertyValueView)>, id: u32)
    requires
        lookup(e, id) is None,
    ensures
        remove_id(e, id) == e,
{
}

/// Setting a property whose id is larger than every id of the sequence
/// appends it.
pub proof fn lemma_upsert_last(e: Seq<(u32, PropertyValueView)>, id: u32, v: PropertyValueView)
    requires
        forall|i: int| 0 <= i < e.len() ==> (#[trigger] e[i]).0 < id,
    ensures
        !contains_id(e, id),
        upsert(e, id, v) == e.push((id, v)),
{
    assert(is_rank(e, id, e.len() as int));
    lemma_rank(e, id, e.len() as int);
    assert(e.insert(e.len() as int, (id, v)) =~= e.push((id, v)));
}

} // verus!
