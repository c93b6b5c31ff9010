use vstd::prelude::*;

verus! {

/// First element of `s` whose key, under the projection `f`, equals `key`;
/// `None` when no element matches. This is the shared model of every lookup
/// the storage gateway and the client registry perform.
pub open spec fn find_by<T>(s: Seq<T>, f: spec_fn(T) -> Seq<char>, key: Seq<char>) -> Option<T>
    decreases s.len(),
{
    if s.len() == 0 {
        None
    } else if f(s[0]) == key {
        Some(s[0])
    } else {
        find_by(s.drop_first(), f, key)
    }
}

/// No two elements of `s` share a key under `f`.
pub open spec fn distinct_by<T>(s: Seq<T>, f: spec_fn(T) -> Seq<char>) -> bool {
    forall|i: int, j: int| #![trigger f(s[i]), f(s[j])] 0 <= i < j < s.len() ==> f(s[i]) != f(s[j])
}

/// A lookup misses exactly when no element carries the key.
pub proof fn lemma_find_by_none<T>(s: Seq<T>, f: spec_fn(T) -> Seq<char>, key: Seq<char>)
    ensures
        (find_by(s, f, key) is None) <==> (forall|i: int| 0 <= i < s.len() ==> f(#[trigger] s[i])
            != key),
    decreases s.len(),
{
    if s.len() > 0 {
        lemma_find_by_none(s.drop_first(), f, key);
        assert forall|i: int| 0 <= i < s.drop_first().len() implies #[trigger] s.drop_first()[i]
            == s[i + 1] by {}
        if find_by(s, f, key) is None {
            assert forall|i: int| 0 <= i < s.len() implies f(#[trigger] s[i]) != key by {
                if i > 0 {
                    assert(s.drop_first()[i - 1] == s[i]);
                }
            }
        }
    }
}

/// Skipping past a non-matching element does not change what a lookup finds.
pub proof fn lemma_find_by_skip_step<T>(s: Seq<T>, f: spec_fn(T) -> Seq<char>, key: Seq<char>, i: int)
    requires
        0 <= i < s.len(),
        f(s[i]) != key,
    ensures
        find_by(s.skip(i), f, key) == find_by(s.skip(i + 1), f, key),
{
    assert(s.skip(i).len() > 0);
    assert(s.skip(i)[0] == s[i]);
    assert(s.skip(i).drop_first() =~= s.skip(i + 1));
}

/// A lookup that has skipped everything before a matching element finds it.
pub proof fn lemma_find_by_skip_found<T>(s: Seq<T>, f: spec_fn(T) -> Seq<char>, key: Seq<char>, i: int)
    requires
        0 <= i < s.len(),
        f(s[i]) == key,
    ensures
        find_by(s.skip(i), f, key) == Some(s[i]),
{
    assert(s.skip(i).len() > 0);
    assert(s.skip(i)[0] == s[i]);
}

/// What a lookup finds after appending one element.
pub proof fn lemma_find_by_push<T>(s: Seq<T>, f: spec_fn(T) -> Seq<char>, key: Seq<char>, x: T)
    ensures
        find_by(s.push(x), f, key) == (match find_by(s, f, key) {
            Some(p) => Some(p),
            None => if f(x) == key {
                Some(x)
            } else {
                None::<T>
            },
        }),
    decreases s.len(),
{
    if s.len() == 0 {
        assert(s.push(x)[0] == x);
        assert(s.push(x).drop_first() =~= Seq::<T>::empty());
        assert(find_by(s.push(x).drop_first(), f, key) is None);
        if f(x) == key {
            assert(find_by(s.push(x), f, key) == Some(x));
        } else {
            assert(find_by(s.push(x), f, key) is None);
        }
    } else {
        assert(s.push(x)[0] == s[0]);
        assert(s.push(x).drop_first() =~= s.drop_first().push(x));
        lemma_find_by_push(s.drop_first(), f, key, x);
        if f(s[0]) == key {
            assert(find_by(s.push(x), f, key) == Some(s[0]));
            assert(find_by(s, f, key) == Some(s[0]));
        } else {
            assert(find_by(s.push(x), f, key) == find_by(s.drop_first().push(x), f, key));
            assert(find_by(s, f, key) == find_by(s.drop_first(), f, key));
        }
    }
}

/// Removing the one element that carries a key makes lookups of it miss.
pub proof fn lemma_find_by_remove_distinct<T>(
    s: Seq<T>,
    f: spec_fn(T) -> Seq<char>,
    key: Seq<char>,
    k: int,
)
    requires
        distinct_by(s, f),
        0 <= k < s.len(),
        f(s[k]) == key,
    ensures
        find_by(s.remove(k), f, key) is None,
{
    let t = s.remove(k);
    assert forall|i: int| 0 <= i < t.len() implies f(#[trigger] t[i]) != key by {
        if i < k {
            assert(t[i] == s[i]);
        } else {
            assert(t[i] == s[i + 1]);
        }
    }
    lemma_find_by_none(t, f, key);
}

/// Appending an element with a fresh key keeps the keys distinct.
pub proof fn lemma_distinct_by_push<T>(s: Seq<T>, f: spec_fn(T) -> Seq<char>, x: T)
    requires
        distinct_by(s, f),
        forall|i: int| 0 <= i < s.len() ==> f(#[trigger] s[i]) != f(x),
    ensures
        distinct_by(s.push(x), f),
{
    assert forall|i: int, j: int| #![trigger f(s.push(x)[i]), f(s.push(x)[j])]
        0 <= i < j < s.push(x).len() implies f(s.push(x)[i]) != f(s.push(x)[j]) by {
        if j < s.len() {
            assert(s.push(x)[i] == s[i]);
            assert(s.push(x)[j] == s[j]);
        } else {
            assert(s.push(x)[i] == s[i]);
            assert(s.push(x)[j] == x);
        }
    }
}

/// Removing an element keeps the keys distinct.
pub proof fn lemma_distinct_by_remove<T>(s: Seq<T>, f: spec_fn(T) -> Seq<char>, k: int)
    requires
        distinct_by(s, f),
        0 <= k < s.len(),
    ensures
        distinct_by(s.remove(k), f),
{
    let t = s.remove(k);
    assert forall|i: int, j: int| #![trigger f(t[i]), f(t[j])] 0 <= i < j < t.len() implies f(
        t[i],
    ) != f(t[j]) by {
        if i < k {
            assert(t[i] == s[i]);
        } else {
            assert(t[i] == s[i + 1]);
        }
        if j < k {
            assert(t[j] == s[j]);
        } else {
            assert(t[j] == s[j + 1]);
        }
    }
}

} // verus!
