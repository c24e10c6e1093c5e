//! Association lists as finite maps: what a key stands for is what its
//! first entry holds.
use vstd::prelude::*;

verus! {

/// What the list holds for a key.
pub open spec fn lookup<K, V>(s: Seq<(K, V)>, k: K) -> Option<V>
    decreases s.len(),
{
    if s.len() == 0 {
        None
    } else if s[0].0 == k {
        Some(s[0].1)
    } else {
        lookup(s.drop_first(), k)
    }
}

/// No key stands twice in the list.
pub open spec fn distinct_keys<K, V>(s: Seq<(K, V)>) -> bool {
    forall|i: int, j: int| 0 <= i < j < s.len() ==> (#[trigger] s[i]).0 != (#[trigger] s[j]).0
}

/// The key stands nowhere in the list.
pub open spec fn absent<K, V>(s: Seq<(K, V)>, k: K) -> bool {
    forall|j: int| 0 <= j < s.len() ==> (#[trigger] s[j]).0 != k
}

/// The first entry of the key stands at `i`.
pub open spec fn first_at<K, V>(s: Seq<(K, V)>, k: K, i: int) -> bool {
    &&& 0 <= i < s.len()
    &&& s[i].0 == k
    &&& forall|j: int| 0 <= j < i ==> (#[trigger] s[j]).0 != k
}

pub proof fn lemma_lookup_first<K, V>(s: Seq<(K, V)>, k: K, i: int)
    requires
        first_at(s, k, i),
    ensures
        lookup(s, k) == Some(s[i].1),
    decreases s.len(),
{
    if i > 0 {
        assert(s[0].0 != k);
        let t = s.drop_first();
        assert(first_at(t, k, i - 1)) by {
            assert forall|j: int| 0 <= j < i - 1 implies (#[trigger] t[j]).0 != k by {
                assert(t[j] == s[j + 1]);
            }
        }
        lemma_lookup_first(t, k, i - 1);
    }
}

pub proof fn lemma_lookup_absent<K, V>(s: Seq<(K, V)>, k: K)
    requires
        absent(s, k),
    ensures
        lookup(s, k) is None,
    decreases s.len(),
{
    if s.len() > 0 {
        assert(s[0].0 != k);
        let t = s.drop_first();
        assert(absent(t, k)) by {
            assert forall|j: int| 0 <= j < t.len() implies (#[trigger] t[j]).0 != k by {
                assert(t[j] == s[j + 1]);
            }
        }
        lemma_lookup_absent(t, k);
    }
}

/// A key that the list holds something for has a first entry, and a
/// key that it holds nothing for has none.
pub proof fn lemma_lookup_found<K, V>(s: Seq<(K, V)>, k: K) -> (i: int)
    ensures
        lookup(s, k) is Some ==> first_at(s, k, i) && lookup(s, k) == Some(s[i].1),
        lookup(s, k) is None ==> absent(s, k),
    decreases s.len(),
{
    if s.len() == 0 {
        0
    } else if s[0].0 == k {
        0
    } else {
        let t = s.drop_first();
        let j = lemma_lookup_found(t, k);
        if lookup(s, k) is Some {
            assert(first_at(s, k, j + 1)) by {
                assert(s[j + 1] == t[j]);
                assert forall|m: int| 0 <= m < j + 1 implies (#[trigger] s[m]).0 != k by {
                    if m > 0 {
                        assert(s[m] == t[m - 1]);
                    }
                }
            }
        } else {
            assert forall|m: int| 0 <= m < s.len() implies (#[trigger] s[m]).0 != k by {
                if m > 0 {
                    assert(s[m] == t[m - 1]);
                }
            }
        }
        j + 1
    }
}

/// A new key at the end changes what the list holds for that key alone.
pub proof fn lemma_lookup_push<K, V>(s: Seq<(K, V)>, k: K, v: V, k2: K)
    requires
        absent(s, k),
    ensures
        lookup(s.push((k, v)), k2) == if k2 == k {
            Some(v)
        } else {
            lookup(s, k2)
        },
        distinct_keys(s) ==> distinct_keys(s.push((k, v))),
{
    let t = s.push((k, v));
    if k2 == k {
        assert(first_at(t, k, s.len() as int));
        lemma_lookup_first(t, k, s.len() as int);
    } else {
        let i = lemma_lookup_found(s, k2);
        if lookup(s, k2) is Some {
            assert(first_at(t, k2, i));
            lemma_lookup_first(t, k2, i);
        } else {
            assert(absent(t, k2)) by {
                assert forall|j: int| 0 <= j < t.len() implies (#[trigger] t[j]).0 != k2 by {
                    if j < s.len() {
                        assert(t[j] == s[j]);
                    }
                }
            }
            lemma_lookup_absent(t, k2);
        }
    }
}

/// A new content for the entry at `i` changes what the list holds for
/// the key of that entry alone.
pub proof fn lemma_lookup_update<K, V>(s: Seq<(K, V)>, i: int, v: V, k2: K)
    requires
        first_at(s, s[i].0, i),
    ensures
        lookup(s.update(i, (s[i].0, v)), k2) == if k2 == s[i].0 {
            Some(v)
        } else {
            lookup(s, k2)
        },
        distinct_keys(s) ==> distinct_keys(s.update(i, (s[i].0, v))),
{
    let k = s[i].0;
    let t = s.update(i, (k, v));
    if k2 == k {
        assert(first_at(t, k, i));
        lemma_lookup_first(t, k, i);
    } else {
        let j = lemma_lookup_found(s, k2);
        if lookup(s, k2) is Some {
            assert(first_at(t, k2, j));
            lemma_lookup_first(t, k2, j);
        } else {
            assert(absent(t, k2)) by {
                assert forall|m: int| 0 <= m < t.len() implies (#[trigger] t[m]).0 != k2 by {
                    if m != i {
                        assert(t[m] == s[m]);
                    }
                }
            }
            lemma_lookup_absent(t, k2);
        }
    }
    if distinct_keys(s) {
        assert forall|a: int, b: int| 0 <= a < b < t.len() implies (#[trigger] t[a]).0 != (
        #[trigger] t[b]).0 by {
            assert(t[a].0 == s[a].0);
            assert(t[b].0 == s[b].0);
        }
    }
}

/// Without the entry at `i`, a list of distinct keys holds nothing for
/// the key of that entry, and for every other key what it held.
pub proof fn lemma_lookup_remove<K, V>(s: Seq<(K, V)>, i: int, k2: K)
    requires
        distinct_keys(s),
        0 <= i < s.len(),
    ensures
        lookup(s.remove(i), k2) == if k2 == s[i].0 {
            None
        } else {
            lookup(s, k2)
        },
        distinct_keys(s.remove(i)),
{
    let k = s[i].0;
    let t = s.remove(i);
    assert forall|a: int, b: int| 0 <= a < b < t.len() implies (#[trigger] t[a]).0 != (
    #[trigger] t[b]).0 by {
        let a2 = if a < i { a } else { a + 1 };
        let b2 = if b < i { b } else { b + 1 };
        assert(t[a] == s[a2]);
        assert(t[b] == s[b2]);
    }
    if k2 == k {
        assert(absent(t, k)) by {
            assert forall|m: int| 0 <= m < t.len() implies (#[trigger] t[m]).0 != k by {
                let m2 = if m < i { m } else { m + 1 };
                assert(t[m] == s[m2]);
                if m2 < i {
                    assert(s[m2].0 != s[i].0);
                } else {
                    assert(s[i].0 != s[m2].0);
                }
            }
        }
        lemma_lookup_absent(t, k);
    } else {
        let j = lemma_lookup_found(s, k2);
        if lookup(s, k2) is Some {
            let j2 = if j < i { j } else { j - 1 };
            assert(first_at(t, k2, j2)) by {
                assert(t[j2] == s[j]);
                assert forall|m: int| 0 <= m < j2 implies (#[trigger] t[m]).0 != k2 by {
                    let m2 = if m < i { m } else { m + 1 };
                    assert(t[m] == s[m2]);
                }
            }
            lemma_lookup_first(t, k2, j2);
        } else {
            assert(absent(t, k2)) by {
                assert forall|m: int| 0 <= m < t.len() implies (#[trigger] t[m]).0 != k2 by {
                    let m2 = if m < i { m } else { m + 1 };
                    assert(t[m] == s[m2]);
                }
            }
            lemma_lookup_absent(t, k2);
        }
    }
}

} // verus!
