use vstd::prelude::*;

verus! {

// The maps of this crate (port forwards per device, the device registry)
// are modelled as association sequences with unique string keys, in
// insertion order.

/// The index of the entry with key `k`, searching from `i`, or the length
/// when there is none.
pub open spec fn assoc_index_of<V>(s: Seq<(Seq<char>, V)>, k: Seq<char>, i: int) -> int
    decreases s.len() - i,
{
    if i < 0 || i >= s.len() {
        s.len() as int
    } else if s[i].0 == k {
        i
    } else {
        assoc_index_of(s, k, i + 1)
    }
}

/// The value under key `k`, when present.
pub open spec fn assoc_lookup<V>(s: Seq<(Seq<char>, V)>, k: Seq<char>) -> Option<V> {
    let i = assoc_index_of(s, k, 0);
    if i < s.len() {
        Some(s[i].1)
    } else {
        None
    }
}

/// Whether key `k` is present.
pub open spec fn assoc_contains<V>(s: Seq<(Seq<char>, V)>, k: Seq<char>) -> bool {
    assoc_index_of(s, k, 0) < s.len()
}

/// The sequence with `k` bound to `v`: an existing binding is replaced in
/// place, a new one is appended.
pub open spec fn assoc_insert<V>(s: Seq<(Seq<char>, V)>, k: Seq<char>, v: V) -> Seq<
    (Seq<char>, V),
> {
    let i = assoc_index_of(s, k, 0);
    if i < s.len() {
        s.update(i, (k, v))
    } else {
        s.push((k, v))
    }
}

/// The sequence without the binding for `k`, if there was one.
pub open spec fn assoc_remove<V>(s: Seq<(Seq<char>, V)>, k: Seq<char>) -> Seq<(Seq<char>, V)> {
    let i = assoc_index_of(s, k, 0);
    if i < s.len() {
        s.remove(i)
    } else {
        s
    }
}

/// Unique keys: the association sequence reads as a map.
pub open spec fn assoc_wf<V>(s: Seq<(Seq<char>, V)>) -> bool {
    forall|i: int, j: int| 0 <= i < j < s.len() ==> s[i].0 != s[j].0
}

/// `assoc_index_of` finds the first occurrence of the key, or reports
/// that there is none.
pub proof fn lemma_assoc_index_of<V>(s: Seq<(Seq<char>, V)>, k: Seq<char>, i: int)
    requires
        0 <= i <= s.len(),
    ensures
        ({
            let r = assoc_index_of(s, k, i);
            &&& i <= r <= s.len()
            &&& r < s.len() ==> s[r].0 == k
            &&& forall|j: int| i <= j < r ==> s[j].0 != k
        }),
    decreases s.len() - i,
{
    if i < s.len() && s[i].0 != k {
        lemma_assoc_index_of(s, k, i + 1);
    }
}

/// Insertion keeps keys unique, binds `k` to `v`, and leaves every other
/// binding as it was.
pub proof fn lemma_assoc_insert<V>(s: Seq<(Seq<char>, V)>, k: Seq<char>, v: V)
    requires
        assoc_wf(s),
    ensures
        assoc_wf(assoc_insert(s, k, v)),
        assoc_lookup(assoc_insert(s, k, v), k) == Some(v),
        forall|k2: Seq<char>|
            k2 != k ==> #[trigger] assoc_lookup(assoc_insert(s, k, v), k2) == assoc_lookup(
                s,
                k2,
            ),
{
    lemma_assoc_index_of(s, k, 0);
    let s2 = assoc_insert(s, k, v);
    let i = assoc_index_of(s, k, 0);
    assert forall|p: int, q: int| 0 <= p < q < s2.len() implies s2[p].0 != s2[q].0 by {
        if i == s.len() && q == s2.len() - 1 {
            assert(s[p].0 != k);
        }
    }
    lemma_assoc_index_of(s2, k, 0);
    let i2 = assoc_index_of(s2, k, 0);
    if i < s.len() {
        if i2 < i {
            assert(s2[i2].0 == k && s2[i2] == s[i2]);
            assert(false);
        } else if i2 > i {
            assert(s2[i].0 == k);
            assert(false);
        }
    } else {
        if i2 < s2.len() - 1 {
            assert(s2[i2] == s[i2] && s2[i2].0 == k);
            assert(false);
        }
        assert(s2[s2.len() - 1].0 == k);
        assert(i2 == s2.len() - 1);
    }
    assert(assoc_lookup(s2, k) == Some(v));
    assert forall|k2: Seq<char>|
        k2 != k implies #[trigger] assoc_lookup(s2, k2) == assoc_lookup(s, k2) by {
        lemma_assoc_index_of(s, k2, 0);
        lemma_assoc_index_of(s2, k2, 0);
        let j = assoc_index_of(s, k2, 0);
        let j2 = assoc_index_of(s2, k2, 0);
        if j < s.len() {
            assert(s2[j].0 == k2);
            if j2 < j {
                assert(s2[j2].0 == k2);
                if j2 == i && i < s.len() {
                    assert(s2[j2].0 == k);
                } else {
                    assert(s2[j2] == s[j2]);
                }
                assert(false);
            } else if j2 > j {
                assert(false);
            }
            assert(s2[j2] == s[j]);
        } else {
            if j2 < s2.len() {
                if i < s.len() {
                    if j2 == i {
                        assert(s2[j2].0 == k);
                    } else {
                        assert(s2[j2] == s[j2]);
                    }
                    assert(false);
                } else {
                    if j2 < s2.len() - 1 {
                        assert(s2[j2] == s[j2]);
                        assert(false);
                    } else {
                        assert(s2[j2].0 == k);
                        assert(false);
                    }
                }
            }
        }
    }
}

/// Removal keeps keys unique, unbinds `k`, and leaves every other binding
/// as it was; with unique keys it removes exactly one entry.
pub proof fn lemma_assoc_remove<V>(s: Seq<(Seq<char>, V)>, k: Seq<char>)
    requires
        assoc_wf(s),
        assoc_contains(s, k),
    ensures
        assoc_wf(assoc_remove(s, k)),
        assoc_remove(s, k).len() == s.len() - 1,
        !assoc_contains(assoc_remove(s, k), k),
        forall|k2: Seq<char>|
            k2 != k ==> #[trigger] assoc_lookup(assoc_remove(s, k), k2) == assoc_lookup(s, k2),
{
    lemma_assoc_index_of(s, k, 0);
    let i = assoc_index_of(s, k, 0);
    let s2 = assoc_remove(s, k);
    assert(forall|j: int| 0 <= j < i ==> s2[j] == s[j]);
    assert(forall|j: int| i <= j < s2.len() ==> s2[j] == s[j + 1]);
    assert forall|p: int, q: int| 0 <= p < q < s2.len() implies s2[p].0 != s2[q].0 by {
        let op = if p < i {
            p
        } else {
            p + 1
        };
        let oq = if q < i {
            q
        } else {
            q + 1
        };
        assert(s[op].0 != s[oq].0);
    }
    assert forall|j: int| 0 <= j < s2.len() implies s2[j].0 != k by {
        let oj = if j < i {
            j
        } else {
            j + 1
        };
        if s2[j].0 == k {
            assert(s[oj].0 == k);
            if oj != i {
                assert(s[i].0 == s[oj].0);
            }
        }
    }
    lemma_assoc_index_of(s2, k, 0);
    assert forall|k2: Seq<char>|
        k2 != k implies #[trigger] assoc_lookup(s2, k2) == assoc_lookup(s, k2) by {
        lemma_assoc_index_of(s, k2, 0);
        lemma_assoc_index_of(s2, k2, 0);
        let j = assoc_index_of(s, k2, 0);
        let j2 = assoc_index_of(s2, k2, 0);
        if j < s.len() {
            let mapped = if j < i {
                j
            } else {
                j - 1
            };
            assert(j != i);
            assert(s2[mapped] == s[j]);
            assert(s2[mapped].0 == k2);
            assert(j2 <= mapped);
            if j2 < mapped {
                let oj2 = if j2 < i {
                    j2
                } else {
                    j2 + 1
                };
                assert(s[oj2] == s2[j2]);
                assert(s[oj2].0 == k2);
                assert(oj2 < j);
                assert(false);
            }
        } else {
            if j2 < s2.len() {
                let oj2 = if j2 < i {
                    j2
                } else {
                    j2 + 1
                };
                assert(s[oj2] == s2[j2]);
                assert(s[oj2].0 == k2);
                assert(false);
            }
        }
    }
}

} // verus!
