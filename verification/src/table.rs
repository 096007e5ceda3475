//! Keyed tables: a sequence of rows, each carrying its own key, read as a map.
use vstd::prelude::*;

verus! {

/// No two rows of `s` share a key.
pub open spec fn keys_unique<T, K>(s: Seq<T>, key: spec_fn(T) -> K) -> bool {
    forall|i: int, j: int|
        0 <= i < s.len() && 0 <= j < s.len() && #[trigger] key(s[i]) == #[trigger] key(s[j]) ==> i
            == j
}

/// Some row of `s` has key `k`.
pub open spec fn has_key<T, K>(s: Seq<T>, key: spec_fn(T) -> K, k: K) -> bool {
    exists|i: int| 0 <= i < s.len() && key(s[i]) == k
}

/// The rows of `s` as a map from key to row.
pub open spec fn table<T, K>(s: Seq<T>, key: spec_fn(T) -> K) -> Map<K, T> {
    Map::new(
        |k: K| has_key(s, key, k),
        |k: K| s[choose|i: int| 0 <= i < s.len() && key(s[i]) == k],
    )
}

pub proof fn lemma_table_index<T, K>(s: Seq<T>, key: spec_fn(T) -> K, i: int)
    requires
        keys_unique(s, key),
        0 <= i < s.len(),
    ensures
        table(s, key).dom().contains(key(s[i])),
        table(s, key)[key(s[i])] == s[i],
{
    assert(has_key(s, key, key(s[i])));
    let j = choose|j: int| 0 <= j < s.len() && key(s[j]) == key(s[i]);
    assert(key(s[j]) == key(s[i]));
}

pub proof fn lemma_table_push<T, K>(s: Seq<T>, key: spec_fn(T) -> K, x: T)
    requires
        keys_unique(s, key),
        !table(s, key).dom().contains(key(x)),
    ensures
        keys_unique(s.push(x), key),
        table(s.push(x), key) =~= table(s, key).insert(key(x), x),
{
    let t = s.push(x);
    assert forall|i: int, j: int|
        0 <= i < t.len() && 0 <= j < t.len() && #[trigger] key(t[i]) == #[trigger] key(t[j]) implies i
        == j by {
        if i < s.len() && j == s.len() {
            assert(has_key(s, key, key(x)));
        }
        if j < s.len() && i == s.len() {
            assert(has_key(s, key, key(x)));
        }
    }
    assert forall|k: K| #[trigger] has_key(t, key, k) <==> (has_key(s, key, k) || k == key(x)) by {
        if has_key(t, key, k) {
            let i = choose|i: int| 0 <= i < t.len() && key(t[i]) == k;
            if i < s.len() {
                assert(key(s[i]) == k);
            }
        }
        if has_key(s, key, k) {
            let i = choose|i: int| 0 <= i < s.len() && key(s[i]) == k;
            assert(key(t[i]) == k);
        }
        if k == key(x) {
            assert(key(t[s.len() as int]) == k);
        }
    }
    assert forall|k: K| #[trigger] table(t, key).dom().contains(k) implies table(t, key)[k] == table(
        s,
        key,
    ).insert(key(x), x)[k] by {
        let i = choose|i: int| 0 <= i < t.len() && key(t[i]) == k;
        lemma_table_index(t, key, i);
        if i < s.len() {
            assert(t[i] == s[i]);
            lemma_table_index(s, key, i);
        }
    }
}

pub proof fn lemma_table_update<T, K>(s: Seq<T>, key: spec_fn(T) -> K, i: int, x: T)
    requires
        keys_unique(s, key),
        0 <= i < s.len(),
        key(x) == key(s[i]),
    ensures
        keys_unique(s.update(i, x), key),
        table(s.update(i, x), key) =~= table(s, key).insert(key(x), x),
{
    let t = s.update(i, x);
    assert forall|a: int, b: int|
        0 <= a < t.len() && 0 <= b < t.len() && #[trigger] key(t[a]) == #[trigger] key(t[b]) implies a
        == b by {
        assert(key(t[a]) == key(s[a]));
        assert(key(t[b]) == key(s[b]));
    }
    assert forall|k: K| #[trigger] has_key(t, key, k) <==> has_key(s, key, k) by {
        if has_key(t, key, k) {
            let a = choose|a: int| 0 <= a < t.len() && key(t[a]) == k;
            assert(key(s[a]) == k);
        }
        if has_key(s, key, k) {
            let a = choose|a: int| 0 <= a < s.len() && key(s[a]) == k;
            assert(key(t[a]) == k);
        }
    }
    lemma_table_index(s, key, i);
    assert forall|k: K| #[trigger] table(t, key).dom().contains(k) implies table(t, key)[k] == table(
        s,
        key,
    ).insert(key(x), x)[k] by {
        let a = choose|a: int| 0 <= a < t.len() && key(t[a]) == k;
        lemma_table_index(t, key, a);
        if a != i {
            lemma_table_index(s, key, a);
        }
    }
}

pub proof fn lemma_table_remove<T, K>(s: Seq<T>, key: spec_fn(T) -> K, i: int)
    requires
        keys_unique(s, key),
        0 <= i < s.len(),
    ensures
        keys_unique(s.remove(i), key),
        table(s.remove(i), key) =~= table(s, key).remove(key(s[i])),
{
    let t = s.remove(i);
    assert forall|a: int, b: int|
        0 <= a < t.len() && 0 <= b < t.len() && #[trigger] key(t[a]) == #[trigger] key(t[b]) implies a
        == b by {
        let sa = if a < i { a } else { a + 1 };
        let sb = if b < i { b } else { b + 1 };
        assert(t[a] == s[sa]);
        assert(t[b] == s[sb]);
    }
    assert forall|k: K| #[trigger] has_key(t, key, k) <==> (has_key(s, key, k) && k != key(s[i])) by {
        if has_key(t, key, k) {
            let a = choose|a: int| 0 <= a < t.len() && key(t[a]) == k;
            let sa = if a < i { a } else { a + 1 };
            assert(t[a] == s[sa]);
            assert(key(s[sa]) == k);
        }
        if has_key(s, key, k) && k != key(s[i]) {
            let a = choose|a: int| 0 <= a < s.len() && key(s[a]) == k;
            let ta = if a < i { a } else { a - 1 };
            assert(t[ta] == s[a]);
            assert(key(t[ta]) == k);
        }
    }
    assert forall|k: K| #[trigger] table(t, key).dom().contains(k) implies table(t, key)[k] == table(
        s,
        key,
    )[k] by {
        let a = choose|a: int| 0 <= a < t.len() && key(t[a]) == k;
        lemma_table_index(t, key, a);
        let sa = if a < i { a } else { a + 1 };
        assert(t[a] == s[sa]);
        lemma_table_index(s, key, sa);
    }
}

} // verus!
