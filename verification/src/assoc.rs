//! Entries of keys and values, and the map that they make up.

use vstd::prelude::*;

verus! {

/// The entry of `e` at `i` is for `k`.
pub open spec fn is_entry<K, V>(e: Seq<(K, V)>, k: K, i: int) -> bool {
    0 <= i < e.len() && e[i].0 == k
}

/// No key stands twice in `e`.
pub open spec fn distinct_keys<K, V>(e: Seq<(K, V)>) -> bool {
    forall|i: int, j: int| 0 <= i < j < e.len() ==> (#[trigger] e[i]).0 != (#[trigger] e[j]).0
}

/// The map that the entries of `e` make up.
pub open spec fn map_of<K, V>(e: Seq<(K, V)>) -> Map<K, V> {
    Map::new(
        |k: K| exists|i: int| is_entry(e, k, i),
        |k: K| e[choose|i: int| is_entry(e, k, i)].1,
    )
}

/// Among distinct keys, an entry's value is what the map holds for its key.
pub proof fn lemma_map_of<K, V>(e: Seq<(K, V)>, i: int)
    requires
        distinct_keys(e),
        0 <= i < e.len(),
    ensures
        map_of(e).contains_key(e[i].0),
        map_of(e)[e[i].0] == e[i].1,
{
    let k = e[i].0;
    assert(is_entry(e, k, i));
    let j = choose|j: int| is_entry(e, k, j);
    assert(is_entry(e, k, j));
}

/// Adding an entry for a new key adds it to the map.
pub proof fn lemma_map_of_push<K, V>(e: Seq<(K, V)>, k: K, v: V)
    requires
        distinct_keys(e),
        !map_of(e).contains_key(k),
    ensures
        distinct_keys(e.push((k, v))),
        map_of(e.push((k, v))) == map_of(e).insert(k, v),
{
    let f = e.push((k, v));
    assert forall|i: int| 0 <= i < e.len() implies (#[trigger] e[i]).0 != k by {
        if e[i].0 == k {
            assert(is_entry(e, k, i));
        }
    }
    assert(distinct_keys(f));
    assert forall|x: K| map_of(f).contains_key(x) <==> #[trigger] map_of(e).insert(
        k,
        v,
    ).contains_key(x) by {
        if map_of(f).contains_key(x) {
            let i = choose|i: int| is_entry(f, x, i);
            if i < e.len() {
                assert(is_entry(e, x, i));
            }
        }
        if x == k {
            assert(is_entry(f, x, e.len() as int));
        } else if map_of(e).contains_key(x) {
            let i = choose|i: int| is_entry(e, x, i);
            assert(is_entry(f, x, i));
        }
    }
    assert forall|x: K| map_of(f).contains_key(x) implies #[trigger] map_of(f)[x]
        == map_of(e).insert(k, v)[x] by {
        let i = choose|i: int| is_entry(f, x, i);
        lemma_map_of(f, i);
        if i < e.len() {
            lemma_map_of(e, i);
        }
    }
    assert(map_of(f) =~= map_of(e).insert(k, v));
}

pub proof fn lemma_map_of_update<K, V>(e: Seq<(K, V)>, at: int, v: V)
    requires
        distinct_keys(e),
        0 <= at < e.len(),
    ensures
        distinct_keys(e.update(at, (e[at].0, v))),
        map_of(e.update(at, (e[at].0, v))) == map_of(e).insert(e[at].0, v),
{
    let k = e[at].0;
    let f = e.update(at, (k, v));
    assert forall|i: int, j: int| 0 <= i < j < f.len() implies (#[trigger] f[i]).0 != (
    #[trigger] f[j]).0 by {
        assert(e[i].0 != e[j].0);
    }
    assert forall|x: K, i: int| is_entry(f, x, i) <==> is_entry(e, x, i) by {}
    assert forall|x: K| map_of(f).contains_key(x) <==> #[trigger] map_of(e).insert(
        k,
        v,
    ).contains_key(x) by {
        if map_of(f).contains_key(x) {
            let i = choose|i: int| is_entry(f, x, i);
            assert(is_entry(e, x, i));
        }
        if x == k {
            assert(is_entry(f, x, at));
        } else if map_of(e).contains_key(x) {
            let i = choose|i: int| is_entry(e, x, i);
            assert(is_entry(f, x, i));
        }
    }
    assert forall|x: K| map_of(f).contains_key(x) implies #[trigger] map_of(f)[x]
        == map_of(e).insert(k, v)[x] by {
        let i = choose|i: int| is_entry(f, x, i);
        lemma_map_of(f, i);
        lemma_map_of(e, i);
    }
    assert(map_of(f) =~= map_of(e).insert(k, v));
}

pub proof fn lemma_map_of_remove<K, V>(e: Seq<(K, V)>, at: int)
    requires
        distinct_keys(e),
        0 <= at < e.len(),
    ensures
        distinct_keys(e.remove(at)),
        map_of(e.remove(at)) == map_of(e).remove(e[at].0),
{
    let k = e[at].0;
    let f = e.remove(at);
    assert forall|i: int, j: int| 0 <= i < j < f.len() implies (#[trigger] f[i]).0 != (
    #[trigger] f[j]).0 by {
        let x = if i < at { i } else { i + 1 };
        let y = if j < at { j } else { j + 1 };
        assert(e[x].0 != e[y].0);
    }
    assert forall|x: K| map_of(f).contains_key(x) <==> #[trigger] map_of(e).remove(
        k,
    ).contains_key(x) by {
        if map_of(f).contains_key(x) {
            let i = choose|i: int| is_entry(f, x, i);
            let j = if i < at { i } else { i + 1 };
            assert(is_entry(e, x, j));
            if j < at {
                assert(e[j].0 != e[at].0);
            } else {
                assert(e[at].0 != e[j].0);
            }
        }
        if x != k && map_of(e).contains_key(x) {
            let i = choose|i: int| is_entry(e, x, i);
            assert(is_entry(f, x, if i < at { i } else { i - 1 }));
        }
    }
    assert forall|x: K| map_of(f).contains_key(x) implies #[trigger] map_of(f)[x]
        == map_of(e).remove(k)[x] by {
        let i = choose|i: int| is_entry(f, x, i);
        lemma_map_of(f, i);
        lemma_map_of(e, if i < at { i } else { i + 1 });
        assert(map_of(e).remove(k).contains_key(x));
    }
    assert(map_of(f) =~= map_of(e).remove(k));
}

} // verus!
