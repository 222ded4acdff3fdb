use vstd::prelude::*;

verus! {

/// The map that a log of keyed entries stands for: a later entry under a key
/// replaces an earlier one.
pub open spec fn latest<K, V>(entries: Seq<(K, V)>) -> Map<K, V>
    decreases entries.len(),
{
    if entries.len() == 0 {
        Map::empty()
    } else {
        latest(entries.drop_last()).insert(entries.last().0, entries.last().1)
    }
}

/// Appending an entry sets its key in the map.
pub proof fn lemma_latest_push<K, V>(entries: Seq<(K, V)>, k: K, v: V)
    ensures
        latest(entries.push((k, v))) == latest(entries).insert(k, v),
{
    assert(entries.push((k, v)).drop_last() =~= entries);
}

/// The entry at `i` holds the map's value for its key when no later entry has
/// that key; a key that no entry has is absent.
pub proof fn lemma_latest_lookup<K, V>(entries: Seq<(K, V)>, k: K, i: int)
    requires
        -1 <= i < entries.len(),
        i >= 0 ==> entries[i].0 == k,
        forall|j: int| i < j < entries.len() ==> (#[trigger] entries[j]).0 != k,
    ensures
        i >= 0 ==> latest(entries).contains_key(k) && latest(entries)[k] == entries[i].1,
        i < 0 ==> !latest(entries).contains_key(k),
    decreases entries.len(),
{
    if entries.len() > 0 {
        let last = entries.len() - 1;
        if i == last {
        } else {
            assert(entries[last].0 != k);
            let rest = entries.drop_last();
            assert forall|j: int| i < j < rest.len() implies (#[trigger] rest[j]).0 != k by {
                assert(rest[j] == entries[j]);
            }
            lemma_latest_lookup(rest, k, i);
            if i >= 0 {
                assert(rest[i] == entries[i]);
            }
        }
    }
}

/// No two entries share a key.
pub open spec fn keys_unique<K, V>(entries: Seq<(K, V)>) -> bool {
    forall|i: int, j: int| 0 <= i < j < entries.len() ==> (#[trigger] entries[i]).0 != (#[trigger] entries[j]).0
}

/// With unique keys, giving entry `i` a new value sets its key in the map.
pub proof fn lemma_latest_update<K, V>(entries: Seq<(K, V)>, i: int, v: V)
    requires
        keys_unique(entries),
        0 <= i < entries.len(),
    ensures
        latest(entries.update(i, (entries[i].0, v))) == latest(entries).insert(entries[i].0, v),
        keys_unique(entries.update(i, (entries[i].0, v))),
    decreases entries.len(),
{
    let k = entries[i].0;
    let u = entries.update(i, (k, v));
    let last = entries.len() - 1;
    if i == last {
        assert(u.drop_last() =~= entries.drop_last());
    } else {
        let rest = entries.drop_last();
        assert forall|a: int, b: int| 0 <= a < b < rest.len() implies (#[trigger] rest[a]).0 != (#[trigger] rest[b]).0 by {
            assert(entries[a] == rest[a] && entries[b] == rest[b]);
        }
        lemma_latest_update(rest, i, v);
        assert(u.drop_last() =~= rest.update(i, (k, v)));
        assert(entries[last].0 != k);
        assert(latest(u) =~= latest(entries).insert(k, v));
    }
    assert forall|a: int, b: int| 0 <= a < b < u.len() implies (#[trigger] u[a]).0 != (#[trigger] u[b]).0 by {
        assert(entries[a].0 != entries[b].0);
    }
}

/// With unique keys, removing entry `i` removes its key from the map.
pub proof fn lemma_latest_remove<K, V>(entries: Seq<(K, V)>, i: int)
    requires
        keys_unique(entries),
        0 <= i < entries.len(),
    ensures
        latest(entries.remove(i)) == latest(entries).remove(entries[i].0),
        keys_unique(entries.remove(i)),
    decreases entries.len(),
{
    let k = entries[i].0;
    let r = entries.remove(i);
    let last = entries.len() - 1;
    let rest = entries.drop_last();
    assert forall|a: int, b: int| 0 <= a < b < rest.len() implies (#[trigger] rest[a]).0 != (#[trigger] rest[b]).0 by {
        assert(entries[a] == rest[a] && entries[b] == rest[b]);
    }
    if i == last {
        assert(r =~= rest);
        lemma_latest_absent(rest, k);
        assert(latest(r) =~= latest(entries).remove(k));
    } else {
        lemma_latest_remove(rest, i);
        assert(r.drop_last() =~= rest.remove(i));
        assert(r.last() == entries.last());
        assert(entries[last].0 != k);
        assert(latest(r) =~= latest(entries).remove(k));
    }
    assert forall|a: int, b: int| 0 <= a < b < r.len() implies (#[trigger] r[a]).0 != (#[trigger] r[b]).0 by {
        let a0 = if a < i { a } else { a + 1 };
        let b0 = if b < i { b } else { b + 1 };
        assert(r[a] == entries[a0] && r[b] == entries[b0]);
        assert(entries[a0].0 != entries[b0].0);
    }
}

/// A key that no entry has is not in the map.
pub proof fn lemma_latest_absent<K, V>(entries: Seq<(K, V)>, k: K)
    requires
        forall|j: int| 0 <= j < entries.len() ==> (#[trigger] entries[j]).0 != k,
    ensures
        !latest(entries).contains_key(k),
{
    lemma_latest_lookup(entries, k, -1);
}

/// With unique keys, entry `i` holds the map's value for its key.
pub proof fn lemma_latest_at<K, V>(entries: Seq<(K, V)>, i: int)
    requires
        keys_unique(entries),
        0 <= i < entries.len(),
    ensures
        latest(entries).contains_key(entries[i].0),
        latest(entries)[entries[i].0] == entries[i].1,
{
    lemma_latest_lookup(entries, entries[i].0, i);
}

/// The map of a log has finitely many keys, each carried by some entry.
pub proof fn lemma_latest_finite<K, V>(entries: Seq<(K, V)>)
    ensures
        latest(entries).dom().finite(),
        forall|k: K| #[trigger] latest(entries).contains_key(k) ==> exists|j: int|
            0 <= j < entries.len() && (#[trigger] entries[j]).0 == k,
    decreases entries.len(),
{
    if entries.len() > 0 {
        let rest = entries.drop_last();
        lemma_latest_finite(rest);
        assert forall|k: K| #[trigger] latest(entries).contains_key(k) implies exists|j: int|
            0 <= j < entries.len() && (#[trigger] entries[j]).0 == k by {
            if k != entries.last().0 {
                assert(latest(rest).contains_key(k));
                let j = choose|j: int| 0 <= j < rest.len() && (#[trigger] rest[j]).0 == k;
                assert(entries[j] == rest[j]);
            } else {
                assert(entries[entries.len() - 1].0 == k);
            }
        }
    }
}

/// With unique keys the map has one key per entry.
pub proof fn lemma_latest_len<K, V>(entries: Seq<(K, V)>)
    requires
        keys_unique(entries),
    ensures
        latest(entries).dom().len() == entries.len(),
    decreases entries.len(),
{
    if entries.len() > 0 {
        let rest = entries.drop_last();
        assert forall|a: int, b: int| 0 <= a < b < rest.len() implies (#[trigger] rest[a]).0 != (#[trigger] rest[b]).0 by {
            assert(entries[a] == rest[a] && entries[b] == rest[b]);
        }
        lemma_latest_len(rest);
        lemma_latest_finite(rest);
        assert forall|j: int| 0 <= j < rest.len() implies (#[trigger] rest[j]).0 != entries.last().0 by {
            assert(entries[j] == rest[j]);
            assert(entries[j].0 != entries[entries.len() - 1].0);
        }
        lemma_latest_absent(rest, entries.last().0);
    }
}

} // verus!
