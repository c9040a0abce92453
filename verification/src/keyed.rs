//! Sequences of records with distinct keys, read as maps from key to record.
use vstd::prelude::*;

verus! {

/// No two records of `s` share a key.
pub open spec fn unique_keys<T>(s: Seq<T>, key: spec_fn(T) -> Seq<char>) -> bool {
    forall|i: int, j: int|
        0 <= i < s.len() && 0 <= j < s.len() && i != j ==> #[trigger] key(s[i]) != #[trigger] key(
            s[j],
        )
}

/// Some record of `s` has key `k`.
pub open spec fn has_key<T>(s: Seq<T>, key: spec_fn(T) -> Seq<char>, k: Seq<char>) -> bool {
    exists|i: int| 0 <= i < s.len() && #[trigger] key(s[i]) == k
}

/// The position of a record of `s` with key `k`.
pub open spec fn index_of_key<T>(s: Seq<T>, key: spec_fn(T) -> Seq<char>, k: Seq<char>) -> int {
    choose|i: int| 0 <= i < s.len() && #[trigger] key(s[i]) == k
}

/// The records of `s` by key.
pub open spec fn keyed_map<T>(s: Seq<T>, key: spec_fn(T) -> Seq<char>) -> Map<Seq<char>, T> {
    Map::new(|k: Seq<char>| has_key(s, key, k), |k: Seq<char>| s[index_of_key(s, key, k)])
}

/// With distinct keys, the record at position `i` is the one the map holds for its key.
pub proof fn lemma_keyed_at<T>(s: Seq<T>, key: spec_fn(T) -> Seq<char>, i: int)
    requires
        unique_keys(s, key),
        0 <= i < s.len(),
    ensures
        keyed_map(s, key).contains_key(key(s[i])),
        keyed_map(s, key)[key(s[i])] == s[i],
        index_of_key(s, key, key(s[i])) == i,
{
    assert(has_key(s, key, key(s[i])));
    let j = index_of_key(s, key, key(s[i]));
    assert(key(s[j]) == key(s[i]));
}

/// A key held by no record is not in the map.
pub proof fn lemma_keyed_absent<T>(s: Seq<T>, key: spec_fn(T) -> Seq<char>, k: Seq<char>)
    requires
        forall|i: int| 0 <= i < s.len() ==> #[trigger] key(s[i]) != k,
    ensures
        !keyed_map(s, key).contains_key(k),
{
}

/// Appending a record with a fresh key inserts it into the map.
pub proof fn lemma_keyed_push<T>(s: Seq<T>, key: spec_fn(T) -> Seq<char>, x: T)
    requires
        unique_keys(s, key),
        !keyed_map(s, key).contains_key(key(x)),
    ensures
        unique_keys(s.push(x), key),
        keyed_map(s.push(x), key) == keyed_map(s, key).insert(key(x), x),
{
    let t = s.push(x);
    assert forall|i: int| 0 <= i < s.len() implies #[trigger] key(s[i]) != key(x) by {
        if key(s[i]) == key(x) {
            assert(has_key(s, key, key(x)));
        }
    }
    assert forall|i: int, j: int|
        0 <= i < t.len() && 0 <= j < t.len() && i != j implies #[trigger] key(t[i]) != #[trigger] key(
            t[j],
        ) by {
        if i < s.len() && j < s.len() {
            assert(t[i] == s[i] && t[j] == s[j]);
        } else if i < s.len() {
            assert(t[i] == s[i]);
        } else {
            assert(t[j] == s[j]);
        }
    }
    let m1 = keyed_map(t, key);
    let m2 = keyed_map(s, key).insert(key(x), x);
    assert forall|k: Seq<char>| #[trigger] m1.contains_key(k) <==> m2.contains_key(k) by {
        if has_key(s, key, k) {
            let i = index_of_key(s, key, k);
            assert(t[i] == s[i]);
            assert(has_key(t, key, k));
        }
        if k == key(x) {
            assert(t[s.len() as int] == x);
            assert(has_key(t, key, k));
        }
        if has_key(t, key, k) {
            let i = index_of_key(t, key, k);
            if i < s.len() {
                assert(t[i] == s[i]);
                assert(has_key(s, key, k));
            }
        }
    }
    assert forall|k: Seq<char>| #[trigger] m1.contains_key(k) implies m1[k] == m2[k] by {
        let i = index_of_key(t, key, k);
        lemma_keyed_at(t, key, i);
        if i < s.len() {
            assert(t[i] == s[i]);
            lemma_keyed_at(s, key, i);
        } else {
            assert(t[i] == x);
        }
    }
    assert(m1 =~= m2);
}

/// Replacing a record by one with the same key updates the map at that key.
pub proof fn lemma_keyed_update<T>(s: Seq<T>, key: spec_fn(T) -> Seq<char>, i: int, x: T)
    requires
        unique_keys(s, key),
        0 <= i < s.len(),
        key(x) == key(s[i]),
    ensures
        unique_keys(s.update(i, x), key),
        keyed_map(s.update(i, x), key) == keyed_map(s, key).insert(key(x), x),
{
    let t = s.update(i, x);
    assert forall|a: int, b: int|
        0 <= a < t.len() && 0 <= b < t.len() && a != b implies #[trigger] key(t[a]) != #[trigger] key(
            t[b],
        ) by {
        if a != i && b != i {
            assert(t[a] == s[a] && t[b] == s[b]);
        } else if a == i {
            assert(t[b] == s[b]);
            assert(key(s[i]) != key(s[b]));
        } else {
            assert(t[a] == s[a]);
            assert(key(s[i]) != key(s[a]));
        }
    }
    let m1 = keyed_map(t, key);
    let m2 = keyed_map(s, key).insert(key(x), x);
    assert forall|k: Seq<char>| #[trigger] m1.contains_key(k) <==> m2.contains_key(k) by {
        if has_key(s, key, k) {
            let j = index_of_key(s, key, k);
            if j == i {
                assert(key(t[i]) == k);
            } else {
                assert(t[j] == s[j]);
            }
            assert(has_key(t, key, k));
        }
        if k == key(x) {
            assert(t[i] == x);
            assert(has_key(t, key, k));
        }
        if has_key(t, key, k) {
            let j = index_of_key(t, key, k);
            if j != i {
                assert(t[j] == s[j]);
                assert(has_key(s, key, k));
            }
        }
    }
    assert forall|k: Seq<char>| #[trigger] m1.contains_key(k) implies m1[k] == m2[k] by {
        let j = index_of_key(t, key, k);
        lemma_keyed_at(t, key, j);
        if j != i {
            assert(t[j] == s[j]);
            lemma_keyed_at(s, key, j);
        } else {
            assert(t[j] == x);
        }
    }
    assert(m1 =~= m2);
}

/// Removing the record at position `i` removes its key from the map.
pub proof fn lemma_keyed_remove<T>(s: Seq<T>, key: spec_fn(T) -> Seq<char>, i: int)
    requires
        unique_keys(s, key),
        0 <= i < s.len(),
    ensures
        unique_keys(s.remove(i), key),
        keyed_map(s.remove(i), key) == keyed_map(s, key).remove(key(s[i])),
{
    let t = s.remove(i);
    assert forall|a: int| 0 <= a < t.len() implies #[trigger] t[a] == s[if a < i {
        a
    } else {
        a + 1
    }] by {}
    assert forall|a: int, b: int|
        0 <= a < t.len() && 0 <= b < t.len() && a != b implies #[trigger] key(t[a]) != #[trigger] key(
            t[b],
        ) by {
        let a1 = if a < i { a } else { a + 1 };
        let b1 = if b < i { b } else { b + 1 };
        assert(t[a] == s[a1] && t[b] == s[b1]);
    }
    let m1 = keyed_map(t, key);
    let m2 = keyed_map(s, key).remove(key(s[i]));
    assert forall|k: Seq<char>| #[trigger] m1.contains_key(k) <==> m2.contains_key(k) by {
        if has_key(t, key, k) {
            let a = index_of_key(t, key, k);
            let a1 = if a < i { a } else { a + 1 };
            assert(t[a] == s[a1]);
            assert(has_key(s, key, k));
            assert(key(s[a1]) != key(s[i]));
        }
        if has_key(s, key, k) && k != key(s[i]) {
            let a = index_of_key(s, key, k);
            assert(a != i);
            let a1 = if a < i { a } else { a - 1 };
            assert(t[a1] == s[a]);
            assert(has_key(t, key, k));
        }
    }
    assert forall|k: Seq<char>| #[trigger] m1.contains_key(k) implies m1[k] == m2[k] by {
        let a = index_of_key(t, key, k);
        lemma_keyed_at(t, key, a);
        let a1 = if a < i { a } else { a + 1 };
        assert(t[a] == s[a1]);
        lemma_keyed_at(s, key, a1);
    }
    assert(m1 =~= m2);
}

/// Some element of `s` satisfies `p`.
pub open spec fn any_satisfies<T>(s: Seq<T>, p: spec_fn(T) -> bool) -> bool {
    exists|i: int| 0 <= i < s.len() && #[trigger] p(s[i])
}

/// The position of the first element of `s` that satisfies `p`.
pub open spec fn first_satisfying<T>(s: Seq<T>, p: spec_fn(T) -> bool) -> int {
    choose|i: int| 0 <= i < s.len() && p(s[i]) && forall|j: int| 0 <= j < i ==> !#[trigger] p(s[j])
}

/// A sequence with an element satisfying `p` has a first such element.
pub proof fn lemma_first_satisfying<T>(s: Seq<T>, p: spec_fn(T) -> bool) -> (i: int)
    requires
        any_satisfies(s, p),
    ensures
        0 <= i < s.len(),
        p(s[i]),
        forall|j: int| 0 <= j < i ==> !#[trigger] p(s[j]),
        i == first_satisfying(s, p),
    decreases s.len(),
{
    let prefix = s.drop_last();
    let i = if any_satisfies(prefix, p) {
        let k = lemma_first_satisfying(prefix, p);
        assert forall|j: int| 0 <= j < k implies !#[trigger] p(s[j]) by {
            assert(s[j] == prefix[j]);
        }
        assert(s[k] == prefix[k]);
        k
    } else {
        let n = s.len() - 1;
        assert forall|j: int| 0 <= j < n implies !#[trigger] p(s[j]) by {
            assert(s[j] == prefix[j]);
            if p(s[j]) {
                assert(p(prefix[j]));
            }
        }
        let w = choose|w: int| 0 <= w < s.len() && #[trigger] p(s[w]);
        if w < n {
            assert(prefix[w] == s[w]);
            assert(p(prefix[w]));
        }
        n
    };
    let q = first_satisfying(s, p);
    assert(q == i) by {
        if q < i {
            assert(!p(s[q]));
        } else if q > i {
            assert(!p(s[i]));
        }
    }
    i
}

} // verus!
