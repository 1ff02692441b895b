//! First-match lookup over association lists.
//!
//! The chain view and the state cache hold their tables as vectors of
//! key/value pairs; these helpers give each table a mathematical reading (a
//! recursive first-match lookup) and verified linear-scan implementations.

use vstd::prelude::*;

verus! {

/// First-match lookup in a `u64`-keyed association list, projecting the
/// value's view.
pub open spec fn alist_get<V: View>(s: Seq<(u64, V)>, k: u64) -> Option<V::V>
    decreases s.len(),
{
    if s.len() == 0 {
        None
    } else if s[0].0 == k {
        Some(s[0].1@)
    } else {
        alist_get(s.drop_first(), k)
    }
}

/// First-match lookup in an association list keyed by sequences of `u64`,
/// projecting the value's view.
pub open spec fn alist_get_k<V: View>(s: Seq<(Vec<u64>, V)>, k: Seq<u64>) -> Option<V::V>
    decreases s.len(),
{
    if s.len() == 0 {
        None
    } else if s[0].0@ == k {
        Some(s[0].1@)
    } else {
        alist_get_k(s.drop_first(), k)
    }
}

/// Equality of two `u64` vectors.
pub fn key_eq(a: &Vec<u64>, b: &Vec<u64>) -> (r: bool)
    ensures
        r == (a@ == b@),
{
    if a.len() != b.len() {
        return false;
    }
    let mut i: usize = 0;
    while i < a.len()
        invariant
            i <= a.len(),
            a@.len() == b@.len(),
            forall|j: int| 0 <= j < i ==> a@[j] == b@[j],
        decreases a.len() - i,
    {
        if a[i] != b[i] {
            return false;
        }
        i = i + 1;
    }
    proof {
        assert(a@ =~= b@);
    }
    true
}

/// Index of the first entry with key `k` in a `u64`-keyed table, tied to
/// [`alist_get`].
pub fn alist_find<V: View>(table: &Vec<(u64, V)>, k: u64) -> (r: Option<usize>)
    ensures
        match r {
            Some(i) => i < table@.len() && table@[i as int].0 == k && alist_get(table@, k) == Some(
                table@[i as int].1@,
            ),
            None => alist_get(table@, k) is None,
        },
{
    let mut i: usize = 0;
    proof {
        assert(table@.skip(0) =~= table@);
    }
    while i < table.len()
        invariant
            i <= table@.len(),
            alist_get(table@.skip(i as int), k) == alist_get(table@, k),
            forall|j: int| 0 <= j < i ==> (#[trigger] table@[j]).0 != k,
        decreases table@.len() - i,
    {
        if table[i].0 == k {
            proof {
                assert(table@.skip(i as int)[0] == table@[i as int]);
            }
            return Some(i);
        }
        proof {
            assert(table@.skip(i as int).drop_first() =~= table@.skip(i as int + 1));
        }
        i = i + 1;
    }
    None
}

/// Index of the first entry with key `k` in a table keyed by `u64` vectors,
/// tied to [`alist_get_k`].
pub fn alist_find_k<V: View>(table: &Vec<(Vec<u64>, V)>, k: &Vec<u64>) -> (r: Option<usize>)
    ensures
        match r {
            Some(i) => i < table@.len() && table@[i as int].0@ == k@ && alist_get_k(table@, k@)
                == Some(table@[i as int].1@),
            None => alist_get_k(table@, k@) is None,
        },
{
    let mut i: usize = 0;
    proof {
        assert(table@.skip(0) =~= table@);
    }
    while i < table.len()
        invariant
            i <= table@.len(),
            alist_get_k(table@.skip(i as int), k@) == alist_get_k(table@, k@),
            forall|j: int| 0 <= j < i ==> (#[trigger] table@[j]).0@ != k@,
        decreases table@.len() - i,
    {
        if key_eq(&table[i].0, k) {
            proof {
                assert(table@.skip(i as int)[0] == table@[i as int]);
            }
            return Some(i);
        }
        proof {
            assert(table@.skip(i as int).drop_first() =~= table@.skip(i as int + 1));
        }
        i = i + 1;
    }
    None
}

/// A successful lookup names one of the list's entries.
pub proof fn lemma_alist_get_k_some<V: View>(s: Seq<(Vec<u64>, V)>, k: Seq<u64>)
    requires
        alist_get_k(s, k) is Some,
    ensures
        exists|i: int|
            0 <= i < s.len() && (#[trigger] s[i]).0@ == k && s[i].1@ == alist_get_k(s, k)->Some_0,
    decreases s.len(),
{
    if s.len() > 0 {
        if s[0].0@ == k {
            assert(s[0].0@ == k && s[0].1@ == alist_get_k(s, k)->Some_0);
        } else {
            lemma_alist_get_k_some(s.drop_first(), k);
            let i = choose|i: int|
                0 <= i < s.drop_first().len() && (#[trigger] s.drop_first()[i]).0@ == k
                    && s.drop_first()[i].1@ == alist_get_k(s.drop_first(), k)->Some_0;
            assert((s[i + 1]).0@ == k && s[i + 1].1@ == alist_get_k(s, k)->Some_0);
        }
    }
}

/// Appending an entry leaves the lookup of every other key unchanged, and
/// makes the appended key found when it was absent.
pub proof fn lemma_alist_push_k<V: View>(s: Seq<(Vec<u64>, V)>, kv: Vec<u64>, v: V, k: Seq<u64>)
    ensures
        alist_get_k(s, k) is Some ==> alist_get_k(s.push((kv, v)), k) == alist_get_k(s, k),
        alist_get_k(s, k) is None && kv@ == k ==> alist_get_k(s.push((kv, v)), k) == Some(v@),
        alist_get_k(s, k) is None && kv@ != k ==> alist_get_k(s.push((kv, v)), k) is None,
    decreases s.len(),
{
    if s.len() == 0 {
        assert(s.push((kv, v))[0] == (kv, v));
        assert(s.push((kv, v)).drop_first() =~= Seq::<(Vec<u64>, V)>::empty());
        if kv@ != k {
            assert(alist_get_k(s.push((kv, v)), k) == alist_get_k(
                Seq::<(Vec<u64>, V)>::empty(),
                k,
            ));
        }
    } else {
        assert(s.push((kv, v))[0] == s[0]);
        assert(s.push((kv, v)).drop_first() =~= s.drop_first().push((kv, v)));
        lemma_alist_push_k(s.drop_first(), kv, v, k);
    }
}

} // verus!
