//! Association lists as maps.
//!
//! The tallies are kept in vectors of key-value pairs in which no key occurs
//! twice. This module says which map such a list stands for, and proves how
//! that map changes when a pair is put in, replaced or taken out.

use vstd::prelude::*;

verus! {

/// No key occurs at two positions of `s`.
pub open spec fn distinct_keys<K, V>(s: Seq<(K, V)>) -> bool {
    forall|i: int, j: int| 0 <= i < j < s.len() ==> s[i].0 != s[j].0
}

/// Position `i` of `s` holds the key `k`.
pub open spec fn key_at<K, V>(s: Seq<(K, V)>, i: int, k: K) -> bool {
    0 <= i < s.len() && s[i].0 == k
}

/// Some position of `s` holds the key `k`.
pub open spec fn holds_key<K, V>(s: Seq<(K, V)>, k: K) -> bool {
    exists|i: int| #[trigger] key_at(s, i, k)
}

/// A position of `s` that holds the key `k`, if there is one.
pub open spec fn position<K, V>(s: Seq<(K, V)>, k: K) -> int {
    choose|i: int| #[trigger] key_at(s, i, k)
}

/// The map that the list `s` stands for: each key of `s` with the value
/// beside it.
pub open spec fn as_map<K, V>(s: Seq<(K, V)>) -> Map<K, V> {
    Map::new(|k: K| holds_key(s, k), |k: K| s[position(s, k)].1)
}

/// Each pair of a list without repeated keys is an entry of its map.
pub proof fn lemma_pair_is_entry<K, V>(s: Seq<(K, V)>, i: int)
    requires
        distinct_keys(s),
        0 <= i < s.len(),
    ensures
        holds_key(s, s[i].0),
        position(s, s[i].0) == i,
        as_map(s).contains_key(s[i].0),
        as_map(s)[s[i].0] == s[i].1,
{
    assert(key_at(s, i, s[i].0));
    let p = position(s, s[i].0);
    assert(key_at(s, p, s[i].0));
    if p < i {
        assert(s[p].0 != s[i].0);
    } else if i < p {
        assert(s[i].0 != s[p].0);
    }
}

/// Putting a pair with a new key anywhere into the list inserts it into the
/// map.
pub proof fn lemma_insert_new_key<K, V>(s: Seq<(K, V)>, p: int, k: K, v: V)
    requires
        distinct_keys(s),
        !holds_key(s, k),
        0 <= p <= s.len(),
    ensures
        distinct_keys(s.insert(p, (k, v))),
        as_map(s.insert(p, (k, v))) == as_map(s).insert(k, v),
{
    let t = s.insert(p, (k, v));
    assert forall|i: int, j: int| 0 <= i < j < t.len() implies t[i].0 != t[j].0 by {
        let oi = if i < p { i } else { i - 1 };
        let oj = if j < p { j } else { j - 1 };
        if i == p {
            assert(t[j] == s[oj]);
            assert(!key_at(s, oj, k));
        } else if j == p {
            assert(t[i] == s[oi]);
            assert(!key_at(s, oi, k));
        } else {
            assert(t[i] == s[oi]);
            assert(t[j] == s[oj]);
        }
    }
    assert forall|q: K| as_map(t).contains_key(q) <==> as_map(s).insert(k, v).contains_key(
        q,
    ) by {
        if holds_key(t, q) {
            let i = position(t, q);
            assert(key_at(t, i, q));
            if i != p {
                let oi = if i < p { i } else { i - 1 };
                assert(t[i] == s[oi]);
                assert(key_at(s, oi, q));
            }
        }
        if holds_key(s, q) {
            let i = position(s, q);
            assert(key_at(s, i, q));
            let ni = if i < p { i } else { i + 1 };
            assert(t[ni] == s[i]);
            assert(key_at(t, ni, q));
        }
        if q == k {
            assert(key_at(t, p, q));
        }
    }
    assert forall|q: K| as_map(t).contains_key(q) implies as_map(t)[q] == as_map(s).insert(
        k,
        v,
    )[q] by {
        let i = position(t, q);
        assert(key_at(t, i, q));
        lemma_pair_is_entry(t, i);
        if i != p {
            let oi = if i < p { i } else { i - 1 };
            assert(t[i] == s[oi]);
            lemma_pair_is_entry(s, oi);
            assert(q != k) by {
                assert(!key_at(s, oi, k));
            }
        }
    }
    assert(as_map(t) =~= as_map(s).insert(k, v));
}

/// Replacing the value at a position of the list replaces it in the map.
pub proof fn lemma_replace_value<K, V>(s: Seq<(K, V)>, i: int, v: V)
    requires
        distinct_keys(s),
        0 <= i < s.len(),
    ensures
        distinct_keys(s.update(i, (s[i].0, v))),
        as_map(s.update(i, (s[i].0, v))) == as_map(s).insert(s[i].0, v),
{
    let k = s[i].0;
    let t = s.update(i, (k, v));
    assert forall|a: int, b: int| 0 <= a < b < t.len() implies t[a].0 != t[b].0 by {
        assert(t[a].0 == s[a].0);
        assert(t[b].0 == s[b].0);
    }
    assert forall|q: K| as_map(t).contains_key(q) <==> as_map(s).insert(k, v).contains_key(
        q,
    ) by {
        if holds_key(t, q) {
            let j = position(t, q);
            assert(key_at(t, j, q));
            assert(key_at(s, j, q));
        }
        if holds_key(s, q) {
            let j = position(s, q);
            assert(key_at(s, j, q));
            assert(key_at(t, j, q));
        }
        if q == k {
            assert(key_at(t, i, q));
        }
    }
    assert forall|q: K| as_map(t).contains_key(q) implies as_map(t)[q] == as_map(s).insert(
        k,
        v,
    )[q] by {
        let j = position(t, q);
        assert(key_at(t, j, q));
        lemma_pair_is_entry(t, j);
        if j != i {
            lemma_pair_is_entry(s, j);
        }
    }
    assert(as_map(t) =~= as_map(s).insert(k, v));
}

/// A list without pairs stands for the empty map.
pub proof fn lemma_empty_list<K, V>(s: Seq<(K, V)>)
    requires
        s.len() == 0,
    ensures
        distinct_keys(s),
        as_map(s) == Map::<K, V>::empty(),
{
    assert forall|q: K| !as_map(s).contains_key(q) by {
        if holds_key(s, q) {
            let j = position(s, q);
            assert(key_at(s, j, q));
        }
    }
    assert(as_map(s) =~= Map::<K, V>::empty());
}

/// A list without repeated keys stands for a finite map with one entry for
/// each of its pairs.
pub proof fn lemma_one_entry_per_pair<K, V>(s: Seq<(K, V)>)
    requires
        distinct_keys(s),
    ensures
        as_map(s).dom().finite(),
        as_map(s).dom().len() == s.len(),
    decreases s.len(),
{
    if s.len() == 0 {
        lemma_empty_list(s);
    } else {
        let shorter = s.drop_last();
        let (k, v) = s.last();
        assert forall|i: int, j: int| 0 <= i < j < shorter.len() implies shorter[i].0
            != shorter[j].0 by {
            assert(s[i].0 != s[j].0);
        }
        if holds_key(shorter, k) {
            let i = position(shorter, k);
            assert(key_at(shorter, i, k));
            assert(s[i].0 != s[s.len() - 1].0);
        }
        lemma_one_entry_per_pair(shorter);
        lemma_insert_new_key(shorter, shorter.len() as int, k, v);
        assert(shorter.insert(shorter.len() as int, (k, v)) =~= s);
        assert(as_map(s).dom() =~= as_map(shorter).dom().insert(k));
        assert(!as_map(shorter).dom().contains(k));
    }
}

} // verus!
