//! Association lists viewed as mathematical maps.
//!
//! Contract storage maps are modelled as vectors of key–value pairs with
//! unique keys; contracts about them speak of the `Map` view defined here.

use vstd::prelude::*;

verus! {

/// The map a key–value pair list denotes (later entries win, but lists are
/// kept duplicate-free).
pub open spec fn map_view<K>(s: Seq<(K, u64)>) -> Map<K, u64>
    decreases s.len(),
{
    if s.len() == 0 {
        Map::empty()
    } else {
        map_view(s.drop_last()).insert(s.last().0, s.last().1)
    }
}

/// No two entries share a key.
pub open spec fn keys_unique<K>(s: Seq<(K, u64)>) -> bool {
    forall|i: int, j: int| 0 <= i < j < s.len() ==> (#[trigger] s[i]).0 != (#[trigger] s[j]).0
}

pub proof fn lemma_map_view_contains<K>(s: Seq<(K, u64)>, k: K)
    ensures
        map_view(s).dom().contains(k) <==> exists|i: int| 0 <= i < s.len() && (#[trigger] s[i]).0
            == k,
    decreases s.len(),
{
    if s.len() > 0 {
        lemma_map_view_contains(s.drop_last(), k);
        if s.last().0 == k {
            assert(s[s.len() - 1].0 == k);
        } else {
            if map_view(s).dom().contains(k) {
                let i = choose|i: int| 0 <= i < s.drop_last().len() && (#[trigger] s.drop_last()[
                    i]).0 == k;
                assert(s[i].0 == k);
            }
            if exists|i: int| 0 <= i < s.len() && (#[trigger] s[i]).0 == k {
                let i = choose|i: int| 0 <= i < s.len() && (#[trigger] s[i]).0 == k;
                assert(i < s.len() - 1);
                assert(s.drop_last()[i].0 == k);
            }
        }
    }
}

pub proof fn lemma_map_view_get<K>(s: Seq<(K, u64)>, i: int)
    requires
        keys_unique(s),
        0 <= i < s.len(),
    ensures
        map_view(s).dom().contains(s[i].0),
        map_view(s)[s[i].0] == s[i].1,
    decreases s.len(),
{
    if i == s.len() - 1 {
        assert(s[i] == s.last());
    } else {
        assert(keys_unique(s.drop_last()));
        assert(s.drop_last()[i] == s[i]);
        lemma_map_view_get(s.drop_last(), i);
        assert(s[i].0 != s.last().0);
    }
}

pub proof fn lemma_map_view_remove<K>(s: Seq<(K, u64)>, i: int)
    requires
        keys_unique(s),
        0 <= i < s.len(),
    ensures
        map_view(s.remove(i)) =~= map_view(s).remove(s[i].0),
        keys_unique(s.remove(i)),
    decreases s.len(),
{
    lemma_map_view_contains(s.drop_last(), s.last().0);
    if i == s.len() - 1 {
        assert(s.remove(i) =~= s.drop_last());
        assert(!map_view(s.drop_last()).dom().contains(s.last().0));
        assert(map_view(s.drop_last()).insert(s.last().0, s.last().1).remove(s.last().0)
            =~= map_view(s.drop_last()));
    } else {
        assert(keys_unique(s.drop_last()));
        assert(s.drop_last()[i] == s[i]);
        lemma_map_view_remove(s.drop_last(), i);
        assert(s.remove(i).drop_last() =~= s.drop_last().remove(i));
        assert(s.remove(i).last() == s.last());
        assert(s[i].0 != s.last().0);
        assert(map_view(s.remove(i)) == map_view(s.drop_last().remove(i)).insert(
            s.last().0,
            s.last().1,
        ));
        assert(map_view(s.drop_last()).remove(s[i].0).insert(s.last().0, s.last().1)
            =~= map_view(s.drop_last()).insert(s.last().0, s.last().1).remove(s[i].0));
    }
}

/// Appending an entry extends the map view.
pub proof fn lemma_map_view_push<K>(s: Seq<(K, u64)>, k: K, v: u64)
    ensures
        map_view(s.push((k, v))) == map_view(s).insert(k, v),
{
    assert(s.push((k, v)).drop_last() =~= s);
    assert(s.push((k, v)).last() == (k, v));
}

/// Updating an entry in place updates the map view, keys staying unique.
pub proof fn lemma_map_view_update<K>(s: Seq<(K, u64)>, i: int, v: u64)
    requires
        keys_unique(s),
        0 <= i < s.len(),
    ensures
        map_view(s.update(i, (s[i].0, v))) =~= map_view(s).insert(s[i].0, v),
        keys_unique(s.update(i, (s[i].0, v))),
    decreases s.len(),
{
    let upd = s.update(i, (s[i].0, v));
    assert(forall|l: int| 0 <= l < s.len() && l != i ==> upd[l] == s[l]);
    if i == s.len() - 1 {
        assert(upd.drop_last() =~= s.drop_last());
        assert(upd.last() == (s[i].0, v));
    } else {
        assert(keys_unique(s.drop_last()));
        assert(s.drop_last()[i] == s[i]);
        lemma_map_view_update(s.drop_last(), i, v);
        assert(upd.drop_last() =~= s.drop_last().update(i, (s[i].0, v)));
        assert(upd.last() == s.last());
        assert(s[i].0 != s.last().0);
        assert(map_view(s.drop_last()).insert(s[i].0, v).insert(s.last().0, s.last().1)
            =~= map_view(s.drop_last()).insert(s.last().0, s.last().1).insert(s[i].0, v));
    }
}

} // verus!
