//! First-match association sequences: the mathematical model behind the
//! key store, the nonce store and the session table.

use vstd::prelude::*;

verus! {

/// The value bound to `key`: the first pair whose key matches, if any.
pub open spec fn assoc_lookup<K, V>(s: Seq<(K, V)>, key: K) -> Option<V>
    decreases s.len(),
{
    if s.len() == 0 {
        None
    } else if s[0].0 == key {
        Some(s[0].1)
    } else {
        assoc_lookup(s.drop_first(), key)
    }
}

/// Skipping pairs whose keys all miss leaves the lookup unchanged.
pub proof fn lemma_assoc_skip_misses<K, V>(s: Seq<(K, V)>, key: K, i: int)
    requires
        0 <= i <= s.len(),
        forall|j: int| 0 <= j < i ==> (#[trigger] s[j]).0 != key,
    ensures
        assoc_lookup(s, key) == assoc_lookup(s.skip(i), key),
    decreases i,
{
    if i > 0 {
        lemma_assoc_skip_misses(s.drop_first(), key, i - 1);
        assert(s.drop_first().skip(i - 1) =~= s.skip(i));
    } else {
        assert(s.skip(0) =~= s);
    }
}

/// A first match at `i` decides the lookup.
pub proof fn lemma_assoc_found<K, V>(s: Seq<(K, V)>, key: K, i: int)
    requires
        0 <= i < s.len(),
        forall|j: int| 0 <= j < i ==> (#[trigger] s[j]).0 != key,
        s[i].0 == key,
    ensures
        assoc_lookup(s, key) == Some(s[i].1),
{
    lemma_assoc_skip_misses(s, key, i);
    assert(s.skip(i)[0] == s[i]);
}

/// No match anywhere means no binding.
pub proof fn lemma_assoc_none<K, V>(s: Seq<(K, V)>, key: K)
    requires
        forall|j: int| 0 <= j < s.len() ==> (#[trigger] s[j]).0 != key,
    ensures
        assoc_lookup(s, key) is None,
{
    lemma_assoc_skip_misses(s, key, s.len() as int);
    assert(s.skip(s.len() as int) =~= Seq::<(K, V)>::empty());
}

/// Replacing the pair at `i` with one under the same key leaves every
/// other key's binding unchanged.
pub proof fn lemma_assoc_update_other<K, V>(s: Seq<(K, V)>, i: int, p: (K, V), key: K)
    requires
        0 <= i < s.len(),
        s[i].0 == p.0,
        key != p.0,
    ensures
        assoc_lookup(s.update(i, p), key) == assoc_lookup(s, key),
    decreases s.len(),
{
    let t = s.update(i, p);
    if s.len() > 0 {
        if i == 0 {
            assert(t.drop_first() =~= s.drop_first());
        } else {
            assert(t[0] == s[0]);
            if s[0].0 == key {
            } else {
                lemma_assoc_update_other(s.drop_first(), i - 1, p, key);
                assert(t.drop_first() =~= s.drop_first().update(i - 1, p));
            }
        }
    }
}

/// Replacing the first pair under a key decides that key's binding and
/// no other. Broadcast so that reasoning about a binding after an
/// update needs no explicit call.
pub broadcast proof fn lemma_assoc_update_lookup<K, V>(s: Seq<(K, V)>, i: int, p: (K, V), key: K)
    requires
        0 <= i < s.len(),
        s[i].0 == p.0,
        forall|j: int| 0 <= j < i ==> (#[trigger] s[j]).0 != p.0,
    ensures
        #[trigger] assoc_lookup(s.update(i, p), key) == (if key == p.0 {
            Some(p.1)
        } else {
            assoc_lookup(s, key)
        }),
{
    if key == p.0 {
        lemma_assoc_found(s.update(i, p), key, i);
    } else {
        lemma_assoc_update_other(s, i, p, key);
    }
}

/// Appending a pair does not disturb keys already bound, and binds an
/// absent key to the new value.
pub proof fn lemma_assoc_push<K, V>(s: Seq<(K, V)>, p: (K, V), key: K)
    ensures
        assoc_lookup(s.push(p), key) == (if assoc_lookup(s, key) is Some {
            assoc_lookup(s, key)
        } else if p.0 == key {
            Some(p.1)
        } else {
            None
        }),
    decreases s.len(),
{
    reveal_with_fuel(assoc_lookup, 3);
    if s.len() == 0 {
        assert(s.push(p)[0] == p);
        assert(s.push(p).drop_first() =~= Seq::<(K, V)>::empty());
    } else {
        assert(s.push(p)[0] == s[0]);
        if s[0].0 == key {
        } else {
            lemma_assoc_push(s.drop_first(), p, key);
            assert(s.push(p).drop_first() =~= s.drop_first().push(p));
        }
    }
}

} // verus!
