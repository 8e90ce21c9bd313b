//! Association vectors with unique keys, abstracted as maps.
//!
//! The hub's registry and its fan-out buffers are small key-value stores
//! keyed by connection id. Both are kept as plain vectors of pairs whose
//! keys are unique, and specified through [`assoc_map`], the map each vector
//! denotes. Later entries override earlier ones, so appending a pair is
//! exactly a map insertion.

use vstd::prelude::*;

verus! {

/// The map denoted by an association vector: entries folded from the left,
/// later entries overriding earlier ones.
pub open spec fn assoc_map<V>(s: Seq<(u64, V)>) -> Map<u64, V>
    decreases s.len(),
{
    if s.len() == 0 {
        Map::empty()
    } else {
        assoc_map(s.drop_last()).insert(s.last().0, s.last().1)
    }
}

/// No key occurs twice.
pub open spec fn assoc_unique<V>(s: Seq<(u64, V)>) -> bool {
    forall|i: int, j: int| 0 <= i < j < s.len() ==> s[i].0 != s[j].0
}

/// Appending a pair inserts it into the denoted map.
pub proof fn lemma_assoc_push<V>(s: Seq<(u64, V)>, p: (u64, V))
    ensures
        assoc_map(s.push(p)) == assoc_map(s).insert(p.0, p.1),
{
    assert(s.push(p).drop_last() =~= s);
    assert(s.push(p).last() == p);
}

/// A key that occurs nowhere in the vector is not in the denoted map.
pub proof fn lemma_assoc_absent<V>(s: Seq<(u64, V)>, id: u64)
    requires
        forall|k: int| 0 <= k < s.len() ==> (#[trigger] s[k]).0 != id,
    ensures
        !assoc_map(s).dom().contains(id),
    decreases s.len(),
{
    if s.len() > 0 {
        lemma_assoc_absent(s.drop_last(), id);
    }
}

/// Under unique keys, the entry holding a key gives the denoted map's value.
pub proof fn lemma_assoc_lookup<V>(s: Seq<(u64, V)>, i: int)
    requires
        assoc_unique(s),
        0 <= i < s.len(),
    ensures
        assoc_map(s).dom().contains(s[i].0),
        assoc_map(s)[s[i].0] == s[i].1,
    decreases s.len(),
{
    if i < s.len() - 1 {
        lemma_assoc_lookup(s.drop_last(), i);
    }
}

/// Removing the entry that holds a key removes the key from the denoted map,
/// and keeps the keys unique.
pub proof fn lemma_assoc_remove_at<V>(s: Seq<(u64, V)>, i: int)
    requires
        assoc_unique(s),
        0 <= i < s.len(),
    ensures
        assoc_map(s.remove(i)) == assoc_map(s).remove(s[i].0),
        assoc_unique(s.remove(i)),
    decreases s.len(),
{
    let id = s[i].0;
    if i == s.len() - 1 {
        assert(s.remove(i) =~= s.drop_last());
        assert forall|k: int| 0 <= k < s.drop_last().len() implies (#[trigger] s.drop_last()[k]).0
            != id by {
            assert(s.drop_last()[k] == s[k]);
        }
        lemma_assoc_absent(s.drop_last(), id);
        assert(assoc_map(s.drop_last()).insert(id, s.last().1).remove(id) =~= assoc_map(
            s.drop_last(),
        ));
    } else {
        assert(s.remove(i).drop_last() =~= s.drop_last().remove(i));
        assert(s.remove(i).last() == s.last());
        lemma_assoc_remove_at(s.drop_last(), i);
        assert(s.last().0 != id);
        assert(assoc_map(s.drop_last()).remove(id).insert(s.last().0, s.last().1) =~= assoc_map(
            s.drop_last(),
        ).insert(s.last().0, s.last().1).remove(id));
    }
}

/// Overwriting the value of the entry that holds a key is an insertion into
/// the denoted map, and keeps the keys unique.
pub proof fn lemma_assoc_update_at<V>(s: Seq<(u64, V)>, i: int, v: V)
    requires
        assoc_unique(s),
        0 <= i < s.len(),
    ensures
        assoc_map(s.update(i, (s[i].0, v))) == assoc_map(s).insert(s[i].0, v),
        assoc_unique(s.update(i, (s[i].0, v))),
    decreases s.len(),
{
    let id = s[i].0;
    let s2 = s.update(i, (id, v));
    if i == s.len() - 1 {
        assert(s2.drop_last() =~= s.drop_last());
        assert(s2.last() == (id, v));
    } else {
        assert(s2.drop_last() =~= s.drop_last().update(i, (id, v)));
        assert(s2.last() == s.last());
        lemma_assoc_update_at(s.drop_last(), i, v);
        assert(s.last().0 != id);
        assert(assoc_map(s.drop_last()).insert(id, v).insert(s.last().0, s.last().1) =~= assoc_map(
            s.drop_last(),
        ).insert(s.last().0, s.last().1).insert(id, v));
    }
}

/// The index of the entry holding `id`, if any.
pub fn assoc_find<V>(v: &Vec<(u64, V)>, id: u64) -> (r: Option<usize>)
    ensures
        match r {
            Some(i) => i < v@.len() && v@[i as int].0 == id,
            None => forall|k: int| 0 <= k < v@.len() ==> (#[trigger] v@[k]).0 != id,
        },
{
    let mut i: usize = 0;
    while i < v.len()
        invariant
            i <= v@.len(),
            forall|k: int| 0 <= k < i ==> (#[trigger] v@[k]).0 != id,
        decreases v@.len() - i,
    {
        if v[i].0 == id {
            return Some(i);
        }
        i = i + 1;
    }
    None
}

/// Removes the entry holding `id`, if any: the denoted map loses `id`.
pub fn assoc_remove<V>(v: &mut Vec<(u64, V)>, id: u64)
    requires
        assoc_unique(old(v)@),
    ensures
        assoc_unique(final (v)@),
        assoc_map(final (v)@) == assoc_map(old(v)@).remove(id),
        final (v)@.len() == old(v)@.len() - (if assoc_map(old(v)@).dom().contains(id) {
            1int
        } else {
            0int
        }),
{
    match assoc_find(v, id) {
        Some(i) => {
            proof {
                lemma_assoc_lookup(v@, i as int);
                lemma_assoc_remove_at(v@, i as int);
            }
            v.remove(i);
        },
        None => {
            proof {
                lemma_assoc_absent(v@, id);
                assert(assoc_map(v@).remove(id) =~= assoc_map(v@));
            }
        },
    }
}

/// Binds `id` to `value`: an insertion into the denoted map.
pub fn assoc_insert<V>(v: &mut Vec<(u64, V)>, id: u64, value: V)
    requires
        assoc_unique(old(v)@),
    ensures
        assoc_unique(final (v)@),
        assoc_map(final (v)@) == assoc_map(old(v)@).insert(id, value),
        final (v)@.len() == old(v)@.len() + (if assoc_map(old(v)@).dom().contains(id) {
            0int
        } else {
            1int
        }),
{
    match assoc_find(v, id) {
        Some(i) => {
            proof {
                lemma_assoc_lookup(v@, i as int);
                lemma_assoc_update_at(v@, i as int, value);
            }
            let ghost s = v@;
            let ghost k = s[i as int].0;
            v.remove(i);
            v.insert(i, (id, value));
            proof {
                assert(v@ =~= s.update(i as int, (k, value)));
            }
        },
        None => {
            proof {
                lemma_assoc_absent(v@, id);
                lemma_assoc_push(v@, (id, value));
            }
            v.push((id, value));
        },
    }
}

/// The value bound to `id`, by reference.
pub fn assoc_get<'a, V>(v: &'a Vec<(u64, V)>, id: u64) -> (r: Option<&'a V>)
    requires
        assoc_unique(v@),
    ensures
        match r {
            Some(value) => assoc_map(v@).dom().contains(id) && *value == assoc_map(v@)[id],
            None => !assoc_map(v@).dom().contains(id),
        },
{
    match assoc_find(v, id) {
        Some(i) => {
            proof {
                lemma_assoc_lookup(v@, i as int);
            }
            Some(&v[i].1)
        },
        None => {
            proof {
                lemma_assoc_absent(v@, id);
            }
            None
        },
    }
}

} // verus!
