use vstd::prelude::*;

use crate::account::Account;

verus! {

/// The value that `s` stores under `a`; with unique keys, that of its one
/// entry for `a`.
pub open spec fn lookup<V>(s: Seq<(Account, V)>, a: Account) -> Option<V>
    decreases s.len(),
{
    if s.len() == 0 {
        None
    } else if s.last().0 == a {
        Some(s.last().1)
    } else {
        lookup(s.drop_last(), a)
    }
}

/// No account has two entries.
pub open spec fn keys_unique<V>(s: Seq<(Account, V)>) -> bool {
    forall|i: int, j: int| 0 <= i < j < s.len() ==> s[i].0 != s[j].0
}

pub proof fn lemma_lookup_at<V>(s: Seq<(Account, V)>, i: int)
    requires
        keys_unique(s),
        0 <= i < s.len(),
    ensures
        lookup(s, s[i].0) == Some(s[i].1),
    decreases s.len(),
{
    if i < s.len() - 1 {
        assert(s.drop_last()[i] == s[i]);
        lemma_lookup_at(s.drop_last(), i);
    }
}

pub proof fn lemma_lookup_absent<V>(s: Seq<(Account, V)>, a: Account)
    requires
        forall|i: int| 0 <= i < s.len() ==> s[i].0 != a,
    ensures
        lookup(s, a) is None,
    decreases s.len(),
{
    if s.len() > 0 {
        assert forall|i: int| 0 <= i < s.drop_last().len() implies s.drop_last()[i].0 != a by {
            assert(s.drop_last()[i] == s[i]);
        }
        lemma_lookup_absent(s.drop_last(), a);
    }
}

/// Replacing the value of entry `i` changes the lookup of its key alone.
pub proof fn lemma_lookup_update<V>(s: Seq<(Account, V)>, i: int, v: V)
    requires
        keys_unique(s),
        0 <= i < s.len(),
    ensures
        keys_unique(s.update(i, (s[i].0, v))),
        lookup(s.update(i, (s[i].0, v)), s[i].0) == Some(v),
        forall|b: Account| b != s[i].0 ==> lookup(s.update(i, (s[i].0, v)), b) == lookup(s, b),
{
    let t = s.update(i, (s[i].0, v));
    assert(keys_unique(t));
    lemma_lookup_at(t, i);
    assert forall|b: Account| b != s[i].0 implies lookup(t, b) == lookup(s, b) by {
        if exists|k: int| 0 <= k < s.len() && s[k].0 == b {
            let k = choose|k: int| 0 <= k < s.len() && s[k].0 == b;
            lemma_lookup_at(s, k);
            lemma_lookup_at(t, k);
        } else {
            lemma_lookup_absent(s, b);
            lemma_lookup_absent(t, b);
        }
    }
}

/// Removing entry `i` removes its key and leaves the other lookups alone.
pub proof fn lemma_lookup_remove<V>(s: Seq<(Account, V)>, i: int)
    requires
        keys_unique(s),
        0 <= i < s.len(),
    ensures
        keys_unique(s.remove(i)),
        lookup(s.remove(i), s[i].0) is None,
        forall|b: Account| b != s[i].0 ==> lookup(s.remove(i), b) == lookup(s, b),
{
    let t = s.remove(i);
    assert forall|x: int, y: int| 0 <= x < y < t.len() implies t[x].0 != t[y].0 by {
        let xs = if x < i { x } else { x + 1 };
        let ys = if y < i { y } else { y + 1 };
        assert(t[x] == s[xs] && t[y] == s[ys]);
    }
    assert forall|k: int| 0 <= k < t.len() implies t[k].0 != s[i].0 by {
        let ks = if k < i { k } else { k + 1 };
        assert(t[k] == s[ks]);
    }
    lemma_lookup_absent(t, s[i].0);
    assert forall|b: Account| b != s[i].0 implies lookup(t, b) == lookup(s, b) by {
        if exists|k: int| 0 <= k < s.len() && s[k].0 == b {
            let k = choose|k: int| 0 <= k < s.len() && s[k].0 == b;
            let kt = if k < i { k } else { k - 1 };
            assert(t[kt] == s[k]);
            lemma_lookup_at(s, k);
            lemma_lookup_at(t, kt);
        } else {
            assert forall|k: int| 0 <= k < t.len() implies t[k].0 != b by {
                let ks = if k < i { k } else { k + 1 };
                assert(t[k] == s[ks]);
            }
            lemma_lookup_absent(s, b);
            lemma_lookup_absent(t, b);
        }
    }
}

/// Appending an entry for an absent key adds that key alone.
pub proof fn lemma_lookup_push<V>(s: Seq<(Account, V)>, a: Account, v: V)
    requires
        keys_unique(s),
        lookup(s, a) is None,
    ensures
        keys_unique(s.push((a, v))),
        lookup(s.push((a, v)), a) == Some(v),
        forall|b: Account| b != a ==> lookup(s.push((a, v)), b) == lookup(s, b),
{
    let t = s.push((a, v));
    assert(t.drop_last() =~= s);
    assert forall|k: int| 0 <= k < s.len() implies s[k].0 != a by {
        lemma_lookup_at(s, k);
    }
    assert(keys_unique(t));
}

/// The position of `a`'s entry in `v`, if it has one.
pub fn find_key<V>(v: &Vec<(Account, V)>, a: &Account) -> (r: Option<usize>)
    requires
        keys_unique(v@),
    ensures
        r matches Some(i) ==> i < v@.len() && v@[i as int].0 == *a && lookup(v@, *a) == Some(
            v@[i as int].1,
        ),
        r is None ==> lookup(v@, *a) is None,
{
    let mut i: usize = 0;
    while i < v.len()
        invariant
            keys_unique(v@),
            i <= v@.len(),
            forall|j: int| 0 <= j < i ==> v@[j].0 != *a,
        decreases v@.len() - i,
    {
        if v[i].0 == *a {
            proof {
                lemma_lookup_at(v@, i as int);
            }
            return Some(i);
        }
        i = i + 1;
    }
    proof {
        lemma_lookup_absent(v@, *a);
    }
    None
}

/// Two sequences with the same keys in the same places look up the same keys,
/// each to the value in its own place.
pub proof fn lemma_lookup_parallel<V, W>(s: Seq<(Account, V)>, t: Seq<(Account, W)>)
    requires
        s.len() == t.len(),
        forall|i: int| 0 <= i < s.len() ==> #[trigger] s[i].0 == t[i].0,
        keys_unique(s),
    ensures
        keys_unique(t),
        forall|a: Account| (lookup(s, a) is Some) == (lookup(t, a) is Some),
        forall|i: int| 0 <= i < s.len() ==> lookup(s, #[trigger] s[i].0) == Some(s[i].1) && lookup(
            t,
            s[i].0,
        ) == Some(t[i].1),
{
    assert forall|x: int, y: int| 0 <= x < y < t.len() implies t[x].0 != t[y].0 by {
        assert(s[x].0 == t[x].0 && s[y].0 == t[y].0);
    }
    assert forall|i: int| 0 <= i < s.len() implies lookup(s, #[trigger] s[i].0) == Some(s[i].1)
        && lookup(t, s[i].0) == Some(t[i].1) by {
        lemma_lookup_at(s, i);
        lemma_lookup_at(t, i);
    }
    assert forall|a: Account| (lookup(s, a) is Some) == (lookup(t, a) is Some) by {
        if exists|i: int| 0 <= i < s.len() && s[i].0 == a {
            let i = choose|i: int| 0 <= i < s.len() && s[i].0 == a;
            lemma_lookup_at(s, i);
            lemma_lookup_at(t, i);
        } else {
            assert forall|i: int| 0 <= i < t.len() implies t[i].0 != a by {
                assert(s[i].0 == t[i].0);
            }
            lemma_lookup_absent(s, a);
            lemma_lookup_absent(t, a);
        }
    }
}

} // verus!
