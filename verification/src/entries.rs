use vstd::prelude::*;

verus! {

/// No key occurs twice in a sequence of key-value entries.
pub open spec fn unique_keys<K, V>(s: Seq<(K, V)>) -> bool {
    forall|i: int, j: int| 0 <= i < s.len() && 0 <= j < s.len() && i != j ==> s[i].0 != s[j].0
}

/// The map that a sequence of entries stands for (a later entry wins, which
/// matters only where keys repeat).
pub open spec fn entries_map<K, V>(s: Seq<(K, V)>) -> Map<K, V>
    decreases s.len(),
{
    if s.len() == 0 {
        Map::empty()
    } else {
        entries_map(s.drop_last()).insert(s.last().0, s.last().1)
    }
}

/// The keys of the map are the keys of the entries, and there are finitely many.
pub proof fn lemma_entries_map_dom<K, V>(s: Seq<(K, V)>)
    ensures
        entries_map(s).dom().finite(),
        forall|k: K| #[trigger]
            entries_map(s).dom().contains(k) <==> exists|i: int| 0 <= i < s.len() && s[i].0 == k,
    decreases s.len(),
{
    if s.len() > 0 {
        let t = s.drop_last();
        lemma_entries_map_dom(t);
        assert forall|k: K| #[trigger]
            entries_map(s).dom().contains(k) <==> exists|i: int| 0 <= i < s.len() && s[i].0 == k by {
            if entries_map(s).dom().contains(k) && k != s.last().0 {
                let i = choose|i: int| 0 <= i < t.len() && t[i].0 == k;
                assert(s[i].0 == k);
            }
            if exists|i: int| 0 <= i < s.len() && s[i].0 == k {
                let i = choose|i: int| 0 <= i < s.len() && s[i].0 == k;
                if i < s.len() - 1 {
                    assert(t[i].0 == k);
                }
            }
        }
    }
}

/// With unique keys, each entry's key maps to the entry's value.
pub proof fn lemma_entries_map_index<K, V>(s: Seq<(K, V)>, i: int)
    requires
        unique_keys(s),
        0 <= i < s.len(),
    ensures
        entries_map(s).dom().contains(s[i].0),
        entries_map(s)[s[i].0] == s[i].1,
    decreases s.len(),
{
    lemma_entries_map_dom(s);
    if i < s.len() - 1 {
        let t = s.drop_last();
        assert(unique_keys(t)) by {
            assert forall|a: int, b: int| 0 <= a < t.len() && 0 <= b < t.len() && a != b implies t[a].0
                != t[b].0 by {
                assert(s[a] == t[a] && s[b] == t[b]);
            }
        }
        assert(t[i] == s[i]);
        lemma_entries_map_index(t, i);
        assert(s[i].0 != s.last().0);
    }
}

/// All of the map's facts at once, for every entry.
pub proof fn lemma_entries_map<K, V>(s: Seq<(K, V)>)
    requires
        unique_keys(s),
    ensures
        entries_map(s).dom().finite(),
        forall|k: K| #[trigger]
            entries_map(s).dom().contains(k) <==> exists|i: int| 0 <= i < s.len() && s[i].0 == k,
        forall|i: int|
            0 <= i < s.len() ==> #[trigger] entries_map(s)[s[i].0] == s[i].1,
{
    lemma_entries_map_dom(s);
    assert forall|i: int| 0 <= i < s.len() implies #[trigger] entries_map(s)[s[i].0] == s[i].1 by {
        lemma_entries_map_index(s, i);
    }
}

/// Replacing the value of an entry replaces the value of its key.
pub proof fn lemma_entries_update<K, V>(s: Seq<(K, V)>, i: int, v: V)
    requires
        unique_keys(s),
        0 <= i < s.len(),
    ensures
        unique_keys(s.update(i, (s[i].0, v))),
        entries_map(s.update(i, (s[i].0, v))) == entries_map(s).insert(s[i].0, v),
{
    let t = s.update(i, (s[i].0, v));
    assert(unique_keys(t)) by {
        assert forall|a: int, b: int| 0 <= a < t.len() && 0 <= b < t.len() && a != b implies t[a].0
            != t[b].0 by {
            assert(t[a].0 == s[a].0 && t[b].0 == s[b].0);
        }
    }
    lemma_entries_map(s);
    lemma_entries_map(t);
    assert forall|k: K| #[trigger] entries_map(t).dom().contains(k) <==> entries_map(s).insert(
        s[i].0,
        v,
    ).dom().contains(k) by {
        if exists|j: int| 0 <= j < t.len() && t[j].0 == k {
            let j = choose|j: int| 0 <= j < t.len() && t[j].0 == k;
            assert(s[j].0 == k);
        }
        if exists|j: int| 0 <= j < s.len() && s[j].0 == k {
            let j = choose|j: int| 0 <= j < s.len() && s[j].0 == k;
            assert(t[j].0 == k);
        }
    }
    assert forall|k: K| #[trigger] entries_map(t).dom().contains(k) implies entries_map(t)[k]
        == entries_map(s).insert(s[i].0, v)[k] by {
        let j = choose|j: int| 0 <= j < t.len() && t[j].0 == k;
        assert(entries_map(t)[t[j].0] == t[j].1);
        if j != i {
            assert(entries_map(s)[s[j].0] == s[j].1);
        }
    }
    assert(entries_map(t) =~= entries_map(s).insert(s[i].0, v));
}

/// Inserting an entry with a new key anywhere adds that key to the map.
pub proof fn lemma_entries_insert<K, V>(s: Seq<(K, V)>, p: int, k: K, v: V)
    requires
        unique_keys(s),
        0 <= p <= s.len(),
        !entries_map(s).dom().contains(k),
    ensures
        unique_keys(s.insert(p, (k, v))),
        entries_map(s.insert(p, (k, v))) == entries_map(s).insert(k, v),
{
    let t = s.insert(p, (k, v));
    lemma_entries_map(s);
    assert forall|j: int| 0 <= j < s.len() implies s[j].0 != k by {
        assert(entries_map(s).dom().contains(s[j].0));
    }
    assert(unique_keys(t)) by {
        assert forall|a: int, b: int| 0 <= a < t.len() && 0 <= b < t.len() && a != b implies t[a].0
            != t[b].0 by {
            let sa = if a < p { a } else { a - 1 };
            let sb = if b < p { b } else { b - 1 };
            if a != p && b != p {
                assert(t[a] == s[sa] && t[b] == s[sb]);
            } else if a == p {
                assert(t[b] == s[sb]);
            } else {
                assert(t[a] == s[sa]);
            }
        }
    }
    lemma_entries_map(t);
    assert forall|q: K| #[trigger] entries_map(t).dom().contains(q) <==> entries_map(s).insert(
        k,
        v,
    ).dom().contains(q) by {
        if exists|j: int| 0 <= j < t.len() && t[j].0 == q {
            let j = choose|j: int| 0 <= j < t.len() && t[j].0 == q;
            if j < p {
                assert(s[j].0 == q);
            } else if j > p {
                assert(s[j - 1].0 == q);
            }
        }
        if exists|j: int| 0 <= j < s.len() && s[j].0 == q {
            let j = choose|j: int| 0 <= j < s.len() && s[j].0 == q;
            if j < p {
                assert(t[j].0 == q);
            } else {
                assert(t[j + 1].0 == q);
            }
        }
        if q == k {
            assert(t[p].0 == q);
        }
    }
    assert forall|q: K| #[trigger] entries_map(t).dom().contains(q) implies entries_map(t)[q]
        == entries_map(s).insert(k, v)[q] by {
        let j = choose|j: int| 0 <= j < t.len() && t[j].0 == q;
        assert(entries_map(t)[t[j].0] == t[j].1);
        if j < p {
            assert(t[j] == s[j]);
            assert(entries_map(s)[s[j].0] == s[j].1);
        } else if j > p {
            assert(t[j] == s[j - 1]);
            assert(entries_map(s)[s[j - 1].0] == s[j - 1].1);
        }
    }
    assert(entries_map(t) =~= entries_map(s).insert(k, v));
}

} // verus!
