//! The first element of a sequence that meets a condition.
use vstd::prelude::*;

verus! {

pub open spec fn is_first<T>(s: Seq<T>, p: spec_fn(T) -> bool, i: int) -> bool {
    &&& 0 <= i < s.len()
    &&& p(s[i])
    &&& forall|j: int| 0 <= j < i ==> !p(#[trigger] s[j])
}

pub open spec fn any_match<T>(s: Seq<T>, p: spec_fn(T) -> bool) -> bool {
    exists|i: int| 0 <= i < s.len() && p(#[trigger] s[i])
}

/// The position of the first element that meets `p`.
pub open spec fn first_match<T>(s: Seq<T>, p: spec_fn(T) -> bool) -> Option<int> {
    if any_match(s, p) {
        Some(choose|i: int| is_first(s, p, i))
    } else {
        None
    }
}

pub proof fn lemma_first_exists<T>(s: Seq<T>, p: spec_fn(T) -> bool)
    requires
        any_match(s, p),
    ensures
        exists|i: int| is_first(s, p, i),
    decreases s.len(),
{
    let d = s.drop_last();
    if any_match(d, p) {
        lemma_first_exists(d, p);
        let k = choose|i: int| is_first(d, p, i);
        assert forall|j: int| 0 <= j < k implies !p(#[trigger] s[j]) by {
            assert(d[j] == s[j]);
        }
        assert(is_first(s, p, k));
    } else {
        let i = choose|i: int| 0 <= i < s.len() && p(#[trigger] s[i]);
        if i < s.len() - 1 {
            assert(d[i] == s[i]);
        }
        assert forall|j: int| 0 <= j < s.len() - 1 implies !p(#[trigger] s[j]) by {
            assert(d[j] == s[j]);
        }
        assert(is_first(s, p, s.len() - 1));
    }
}

pub proof fn lemma_first_match_is<T>(s: Seq<T>, p: spec_fn(T) -> bool, i: int)
    requires
        is_first(s, p, i),
    ensures
        first_match(s, p) == Some(i),
{
    assert(any_match(s, p));
    let k = choose|k: int| is_first(s, p, k);
    assert(is_first(s, p, k));
    if k < i {
        assert(!p(s[k]));
    }
    if i < k {
        assert(!p(s[i]));
    }
}

pub proof fn lemma_first_match_none<T>(s: Seq<T>, p: spec_fn(T) -> bool)
    requires
        forall|j: int| 0 <= j < s.len() ==> !p(#[trigger] s[j]),
    ensures
        first_match(s, p) is None,
{
}

pub proof fn lemma_first_match_some<T>(s: Seq<T>, p: spec_fn(T) -> bool)
    requires
        any_match(s, p),
    ensures
        first_match(s, p) is Some,
        is_first(s, p, first_match(s, p)->0),
{
    lemma_first_exists(s, p);
}

pub open spec fn key_is<V>(k: Seq<char>) -> spec_fn((Seq<char>, V)) -> bool {
    |e: (Seq<char>, V)| e.0 == k
}

/// The value of the first pair with key `k`.
pub open spec fn assoc_get<V>(s: Seq<(Seq<char>, V)>, k: Seq<char>) -> Option<V> {
    match first_match(s, key_is::<V>(k)) {
        Some(i) => Some(s[i].1),
        None => None,
    }
}

/// Sets `k` to `v`: replaces the first pair with key `k`, or appends one.
pub open spec fn assoc_insert<V>(s: Seq<(Seq<char>, V)>, k: Seq<char>, v: V) -> Seq<(Seq<char>, V)> {
    match first_match(s, key_is::<V>(k)) {
        Some(i) => s.update(i, (k, v)),
        None => s.push((k, v)),
    }
}

pub proof fn lemma_assoc_insert<V>(s: Seq<(Seq<char>, V)>, k: Seq<char>, v: V, k2: Seq<char>)
    ensures
        assoc_get(assoc_insert(s, k, v), k2) == if k2 == k {
            Some(v)
        } else {
            assoc_get(s, k2)
        },
{
    let r = assoc_insert(s, k, v);
    match first_match(s, key_is::<V>(k)) {
        Some(i) => {
            lemma_first_match_some(s, key_is::<V>(k));
            assert(r.len() == s.len());
            if k2 == k {
                assert(is_first(r, key_is::<V>(k2), i));
                lemma_first_match_is(r, key_is::<V>(k2), i);
            } else {
                assert forall|j: int| 0 <= j < r.len() implies (key_is::<V>(k2)(#[trigger] r[j]) == key_is::<V>(k2)(s[j])) by {
                    if j == i {
                        assert(r[j].0 == k);
                        assert(s[j].0 == k);
                    }
                }
                if any_match(s, key_is::<V>(k2)) {
                    lemma_first_match_some(s, key_is::<V>(k2));
                    let m = first_match(s, key_is::<V>(k2))->0;
                    assert(m != i);
                    assert(is_first(r, key_is::<V>(k2), m));
                    lemma_first_match_is(r, key_is::<V>(k2), m);
                } else {
                    assert forall|j: int| 0 <= j < r.len() implies !key_is::<V>(k2)(#[trigger] r[j]) by {
                        assert(!key_is::<V>(k2)(s[j]));
                    }
                    lemma_first_match_none(r, key_is::<V>(k2));
                }
            }
        },
        None => {
            assert forall|j: int| 0 <= j < s.len() implies !key_is::<V>(k)(#[trigger] s[j]) by {
                if key_is::<V>(k)(s[j]) {
                    assert(any_match(s, key_is::<V>(k)));
                }
            }
            if k2 == k {
                assert(is_first(r, key_is::<V>(k2), s.len() as int));
                lemma_first_match_is(r, key_is::<V>(k2), s.len() as int);
            } else {
                if any_match(s, key_is::<V>(k2)) {
                    lemma_first_match_some(s, key_is::<V>(k2));
                    let m = first_match(s, key_is::<V>(k2))->0;
                    assert(is_first(r, key_is::<V>(k2), m));
                    lemma_first_match_is(r, key_is::<V>(k2), m);
                } else {
                    assert forall|j: int| 0 <= j < r.len() implies !key_is::<V>(k2)(#[trigger] r[j]) by {
                        if j < s.len() {
                            assert(!key_is::<V>(k2)(s[j]));
                        }
                    }
                    lemma_first_match_none(r, key_is::<V>(k2));
                }
            }
        },
    }
}

} // verus!
