//! Key-value storage: the store interface and a verified in-memory store.
//!
//! The contents of a store are a map from key bytes to value bytes; every
//! operation is specified against that map. [`MemoryDB`] keeps the map as an
//! association list with unique keys.

use vstd::prelude::*;

verus! {

/// A storage backend failure. The in-memory store never produces one; the
/// variant exists for fallible backends driven by runtime code.
#[derive(Clone, Copy, PartialEq, Eq, Debug)]
pub enum DbError {
    /// The backend could not serve the request.
    Backend,
}

/// A service that may need opening before use.
pub trait DatabaseService {
    /// Prepares the service; by default there is nothing to do. Opening an
    /// already opened service succeeds as well.
    fn open(&mut self) -> (r: Result<(), DbError>)
        ensures
            r is Ok,
    {
        Ok(())
    }
}

/// A key-value store whose contents are a map from key bytes to value
/// bytes.
pub trait Store {
    /// The stored contents.
    spec fn contents(&self) -> Map<Seq<u8>, Seq<u8>>;

    /// The store's internal invariant.
    spec fn inv(&self) -> bool;

    /// Read a single value; `None` if the key does not exist.
    fn read(&self, key: &[u8]) -> (r: Result<Option<Vec<u8>>, DbError>)
        requires
            self.inv(),
        ensures
            r is Ok ==> match r->Ok_0 {
                Some(v) => self.contents().contains_key(key@) && v@ == self.contents()[key@],
                None => !self.contents().contains_key(key@),
            },
    ;

    /// Write a single value.
    fn write(&mut self, key: &[u8], value: &[u8]) -> (r: Result<(), DbError>)
        requires
            old(self).inv(),
        ensures
            final(self).inv(),
            r is Ok ==> final(self).contents() == old(self).contents().insert(key@, value@),
    ;

    /// Delete the value at a key; deleting an absent key succeeds.
    fn delete(&mut self, key: &[u8]) -> (r: Result<(), DbError>)
        requires
            old(self).inv(),
        ensures
            final(self).inv(),
            r is Ok ==> final(self).contents() == old(self).contents().remove(key@),
    ;

    /// Whether the key exists in the store.
    fn key_exists(&self, key: &[u8]) -> (r: Result<bool, DbError>)
        requires
            self.inv(),
        ensures
            r is Ok ==> r->Ok_0 == self.contents().contains_key(key@),
    ;

    /// Read each key, returning one optional value per key, in order.
    fn bulk_read(&self, keys: &Vec<Vec<u8>>) -> (r: Result<Vec<Option<Vec<u8>>>, DbError>)
        requires
            self.inv(),
        ensures
            r is Ok ==> {
                &&& r->Ok_0@.len() == keys@.len()
                &&& forall|i: int|
                    0 <= i < keys@.len() ==> match #[trigger] r->Ok_0@[i] {
                        Some(v) => self.contents().contains_key(keys@[i]@) && v@
                            == self.contents()[keys@[i]@],
                        None => !self.contents().contains_key(keys@[i]@),
                    }
            },
    ;

    /// Write the paired keys and values, in order; surplus keys or values
    /// beyond the shorter slice are ignored.
    fn bulk_write(&mut self, keys: &Vec<Vec<u8>>, values: &Vec<Vec<u8>>) -> (r: Result<
        (),
        DbError,
    >)
        requires
            old(self).inv(),
        ensures
            final(self).inv(),
            r is Ok ==> final(self).contents() == bulk_inserted(
                old(self).contents(),
                keys@,
                values@,
                if keys@.len() <= values@.len() {
                    keys@.len() as int
                } else {
                    values@.len() as int
                },
            ),
    ;

    /// Delete every given key, in order.
    fn bulk_delete(&mut self, keys: &Vec<Vec<u8>>) -> (r: Result<(), DbError>)
        requires
            old(self).inv(),
        ensures
            final(self).inv(),
            r is Ok ==> final(self).contents() == bulk_removed(
                old(self).contents(),
                keys@,
                keys@.len() as int,
            ),
    ;
}

/// The map after inserting the first `n` key/value pairs, in order.
pub open spec fn bulk_inserted(
    m: Map<Seq<u8>, Seq<u8>>,
    keys: Seq<Vec<u8>>,
    values: Seq<Vec<u8>>,
    n: int,
) -> Map<Seq<u8>, Seq<u8>>
    decreases n,
{
    if n <= 0 {
        m
    } else {
        bulk_inserted(m, keys, values, n - 1).insert(keys[n - 1]@, values[n - 1]@)
    }
}

/// The map after removing the first `n` keys, in order.
pub open spec fn bulk_removed(m: Map<Seq<u8>, Seq<u8>>, keys: Seq<Vec<u8>>, n: int) -> Map<
    Seq<u8>,
    Seq<u8>,
>
    decreases n,
{
    if n <= 0 {
        m
    } else {
        bulk_removed(m, keys, n - 1).remove(keys[n - 1]@)
    }
}

/// First-match lookup in the entry list.
pub open spec fn db_get(s: Seq<(Vec<u8>, Vec<u8>)>, k: Seq<u8>) -> Option<Seq<u8>>
    decreases s.len(),
{
    if s.len() == 0 {
        None
    } else if s[0].0@ == k {
        Some(s[0].1@)
    } else {
        db_get(s.drop_first(), k)
    }
}

/// Entry keys are pairwise distinct.
pub open spec fn db_keys_unique(s: Seq<(Vec<u8>, Vec<u8>)>) -> bool {
    forall|a: int, b: int|
        0 <= a < b < s.len() ==> (#[trigger] s[a]).0@ != (#[trigger] s[b]).0@
}

/// Appending an entry with a fresh key adds exactly that key.
proof fn lemma_db_push(s: Seq<(Vec<u8>, Vec<u8>)>, e: (Vec<u8>, Vec<u8>), k: Seq<u8>)
    requires
        db_get(s, e.0@) is None,
    ensures
        db_get(s.push(e), k) == (if k == e.0@ {
            Some(e.1@)
        } else {
            db_get(s, k)
        }),
    decreases s.len(),
{
    if s.len() == 0 {
        assert(s.push(e)[0] == e);
        if k != e.0@ {
            assert(s.push(e).drop_first() =~= s);
            assert(db_get(s.push(e), k) == db_get(s, k));
        }
    } else {
        assert(s.push(e)[0] == s[0]);
        assert(s.push(e).drop_first() =~= s.drop_first().push(e));
        lemma_db_push(s.drop_first(), e, k);
    }
}

/// Removing entry `i` removes exactly that entry's key.
proof fn lemma_db_remove(s: Seq<(Vec<u8>, Vec<u8>)>, i: int, k: Seq<u8>)
    requires
        db_keys_unique(s),
        0 <= i < s.len(),
    ensures
        db_get(s.remove(i), k) == (if k == s[i].0@ {
            None
        } else {
            db_get(s, k)
        }),
    decreases s.len(),
{
    if s.len() > 0 {
        if i == 0 {
            assert(s.remove(0) =~= s.drop_first());
            if k == s[0].0@ {
                lemma_db_absent_when_unique(s, k);
            }
        } else {
            assert(s.remove(i)[0] == s[0]);
            assert(s.remove(i).drop_first() =~= s.drop_first().remove(i - 1));
            if s[0].0@ == k {
                assert(s[0].0@ != s[i].0@);
            } else {
                lemma_db_remove(s.drop_first(), i - 1, k);
            }
        }
    }
}

/// Under unique keys, the tail holds no entry with the head's key.
proof fn lemma_db_absent_when_unique(s: Seq<(Vec<u8>, Vec<u8>)>, k: Seq<u8>)
    requires
        db_keys_unique(s),
        s.len() > 0,
        s[0].0@ == k,
    ensures
        db_get(s.drop_first(), k) is None,
    decreases s.len(),
{
    lemma_db_get_found(s.drop_first(), k);
}

/// A successful lookup names an entry with that key.
proof fn lemma_db_get_found(s: Seq<(Vec<u8>, Vec<u8>)>, k: Seq<u8>)
    ensures
        db_get(s, k) is Some ==> exists|i: int| 0 <= i < s.len() && (#[trigger] s[i]).0@ == k,
    decreases s.len(),
{
    if s.len() > 0 && s[0].0@ != k {
        lemma_db_get_found(s.drop_first(), k);
        if db_get(s, k) is Some {
            let i = choose|i: int|
                0 <= i < s.drop_first().len() && (#[trigger] s.drop_first()[i]).0@ == k;
            assert(s[i + 1].0@ == k);
        }
    }
}

/// A sequential in-memory store: an association list from key bytes to
/// value bytes, with unique keys. Runtime drivers that share one across
/// threads put it behind a lock of their own.
#[derive(PartialEq, Eq, Debug)]
pub struct MemoryDB {
    entries: Vec<(Vec<u8>, Vec<u8>)>,
}

impl Default for MemoryDB {
    /// An empty store.
    fn default() -> (r: Self)
        ensures
            r.inv(),
            r.contents() == Map::<Seq<u8>, Seq<u8>>::empty(),
    {
        let r = MemoryDB { entries: Vec::new() };
        proof {
            assert(r.contents() =~= Map::<Seq<u8>, Seq<u8>>::empty());
        }
        r
    }
}

impl MemoryDB {
    /// Index of the entry holding `key`, tied to [`db_get`].
    #[verifier::loop_isolation(false)]
    fn find(&self, key: &[u8]) -> (r: Option<usize>)
        ensures
            match r {
                Some(i) => i < self.entries@.len() && self.entries@[i as int].0@ == key@ && db_get(
                    self.entries@,
                    key@,
                ) == Some(self.entries@[i as int].1@),
                None => db_get(self.entries@, key@) is None,
            },
    {
        let mut i: usize = 0;
        proof {
            assert(self.entries@.skip(0) =~= self.entries@);
        }
        while i < self.entries.len()
            invariant
                i <= self.entries@.len(),
                db_get(self.entries@.skip(i as int), key@) == db_get(self.entries@, key@),
            decreases self.entries@.len() - i,
        {
            let e = &self.entries[i];
            proof {
                assert(self.entries@.skip(i as int)[0] == self.entries@[i as int]);
            }
            if bytes_eq(&e.0, key) {
                return Some(i);
            }
            proof {
                assert(self.entries@.skip(i as int).drop_first() =~= self.entries@.skip(
                    i as int + 1,
                ));
            }
            i = i + 1;
        }
        None
    }
}

/// Equality of a byte vector and a byte slice.
fn bytes_eq(a: &Vec<u8>, b: &[u8]) -> (r: bool)
    ensures
        r == (a@ == b@),
{
    if a.len() != b.len() {
        return false;
    }
    let mut i: usize = 0;
    while i < a.len()
        invariant
            i <= a@.len(),
            a@.len() == b@.len(),
            forall|j: int| 0 <= j < i ==> a@[j] == b@[j],
        decreases a@.len() - i,
    {
        if a[i] != b[i] {
            return false;
        }
        i = i + 1;
    }
    proof {
        assert(a@ =~= b@);
    }
    true
}

impl DatabaseService for MemoryDB {

}

impl Store for MemoryDB {
    /// The first-match reading of the entry list.
    closed spec fn contents(&self) -> Map<Seq<u8>, Seq<u8>> {
        Map::new(
            |k: Seq<u8>| db_get(self.entries@, k) is Some,
            |k: Seq<u8>| db_get(self.entries@, k)->Some_0,
        )
    }

    /// Keys are unique, so updates and removals touch one entry.
    closed spec fn inv(&self) -> bool {
        db_keys_unique(self.entries@)
    }

    fn read(&self, key: &[u8]) -> (r: Result<Option<Vec<u8>>, DbError>)
        ensures
            r is Ok,
    {
        match self.find(key) {
            Some(i) => {
                let v = self.entries[i].1.clone();
                proof {
                    assert(v@ =~= self.entries@[i as int].1@);
                }
                Ok(Some(v))
            },
            None => Ok(None),
        }
    }

    fn write(&mut self, key: &[u8], value: &[u8]) -> (r: Result<(), DbError>)
        ensures
            r is Ok,
    {
        let k: Vec<u8> = slice_to_vec(key);
        let v: Vec<u8> = slice_to_vec(value);
        let ghost s0 = self.entries@;
        match self.find(key) {
            Some(i) => {
                self.entries.remove(i);
                proof {
                    lemma_db_remove_all(s0, i as int);
                }
            },
            None => {},
        }
        let ghost s1 = self.entries@;
        proof {
            assert(db_get(s1, key@) is None);
        }
        self.entries.push((k, v));
        proof {
            hide_write_push(s1, self.entries@, key@, value@);
            assert(self.contents() =~= old(self).contents().insert(key@, value@));
        }
        Ok(())
    }

    fn delete(&mut self, key: &[u8]) -> (r: Result<(), DbError>)
        ensures
            r is Ok,
    {
        let ghost s0 = self.entries@;
        match self.find(key) {
            Some(i) => {
                self.entries.remove(i);
                proof {
                    lemma_db_remove_all(s0, i as int);
                }
            },
            None => {},
        }
        proof {
            assert(self.contents() =~= old(self).contents().remove(key@));
        }
        Ok(())
    }

    fn key_exists(&self, key: &[u8]) -> (r: Result<bool, DbError>)
        ensures
            r is Ok,
    {
        match self.find(key) {
            Some(_) => Ok(true),
            None => Ok(false),
        }
    }

    #[verifier::loop_isolation(false)]
    fn bulk_read(&self, keys: &Vec<Vec<u8>>) -> (r: Result<Vec<Option<Vec<u8>>>, DbError>)
        ensures
            r is Ok,
    {
        let mut out: Vec<Option<Vec<u8>>> = Vec::new();
        let mut i: usize = 0;
        while i < keys.len()
            invariant
                i <= keys@.len(),
                out@.len() == i as int,
                forall|j: int|
                    0 <= j < i ==> match #[trigger] out@[j] {
                        Some(v) => self.contents().contains_key(keys@[j]@) && v@
                            == self.contents()[keys@[j]@],
                        None => !self.contents().contains_key(keys@[j]@),
                    },
            decreases keys@.len() - i,
        {
            match self.read(keys[i].as_slice()) {
                Ok(v) => {
                    out.push(v);
                },
                Err(e) => {
                    return Err(e);
                },
            }
            i = i + 1;
        }
        Ok(out)
    }

    #[verifier::loop_isolation(false)]
    fn bulk_write(&mut self, keys: &Vec<Vec<u8>>, values: &Vec<Vec<u8>>) -> (r: Result<
        (),
        DbError,
    >)
        ensures
            r is Ok,
    {
        let n = if keys.len() <= values.len() {
            keys.len()
        } else {
            values.len()
        };
        let mut i: usize = 0;
        while i < n
            invariant
                i <= n,
                n == (if keys@.len() <= values@.len() {
                    keys@.len() as int
                } else {
                    values@.len() as int
                }),
                self.inv(),
                self.contents() == bulk_inserted(
                    old(self).contents(),
                    keys@,
                    values@,
                    i as int,
                ),
            decreases n - i,
        {
            match self.write(keys[i].as_slice(), values[i].as_slice()) {
                Ok(()) => {},
                Err(e) => {
                    return Err(e);
                },
            }
            i = i + 1;
        }
        Ok(())
    }

    #[verifier::loop_isolation(false)]
    fn bulk_delete(&mut self, keys: &Vec<Vec<u8>>) -> (r: Result<(), DbError>)
        ensures
            r is Ok,
    {
        let mut i: usize = 0;
        while i < keys.len()
            invariant
                i <= keys@.len(),
                self.inv(),
                self.contents() == bulk_removed(old(self).contents(), keys@, i as int),
            decreases keys@.len() - i,
        {
            match self.delete(keys[i].as_slice()) {
                Ok(()) => {},
                Err(e) => {
                    return Err(e);
                },
            }
            i = i + 1;
        }
        Ok(())
    }
}

/// Copies a byte slice into a vector.
fn slice_to_vec(s: &[u8]) -> (r: Vec<u8>)
    ensures
        r@ == s@,
{
    let mut r: Vec<u8> = Vec::new();
    let mut i: usize = 0;
    while i < s.len()
        invariant
            i <= s@.len(),
            r@ =~= s@.subrange(0, i as int),
        decreases s@.len() - i,
    {
        r.push(s[i]);
        proof {
            assert(r@ =~= s@.subrange(0, i as int + 1));
        }
        i = i + 1;
    }
    proof {
        assert(s@.subrange(0, s@.len() as int) =~= s@);
    }
    r
}

/// Removing entry `i` keeps keys unique and removes exactly that entry's
/// key from the lookup.
proof fn lemma_db_remove_all(s: Seq<(Vec<u8>, Vec<u8>)>, i: int)
    requires
        db_keys_unique(s),
        0 <= i < s.len(),
    ensures
        db_keys_unique(s.remove(i)),
        forall|k2: Seq<u8>|
            #![trigger db_get(s.remove(i), k2)]
            db_get(s.remove(i), k2) == (if k2 == s[i].0@ {
                None
            } else {
                db_get(s, k2)
            }),
{
    assert forall|k2: Seq<u8>| #![trigger db_get(s.remove(i), k2)] db_get(s.remove(i), k2) == (
    if k2 == s[i].0@ {
        None
    } else {
        db_get(s, k2)
    }) by {
        lemma_db_remove(s, i, k2);
    }
    assert forall|a: int, b: int| 0 <= a < b < s.remove(i).len() implies (
    #[trigger] s.remove(i)[a]).0@ != (#[trigger] s.remove(i)[b]).0@ by {
        assert(s.remove(i)[a] == (if a < i {
            s[a]
        } else {
            s[a + 1]
        }));
        assert(s.remove(i)[b] == (if b < i {
            s[b]
        } else {
            s[b + 1]
        }));
    }
}

/// After pushing a fresh key, lookups read the new value at that key and
/// are unchanged elsewhere; uniqueness is preserved.
proof fn hide_write_push(
    s0: Seq<(Vec<u8>, Vec<u8>)>,
    s1: Seq<(Vec<u8>, Vec<u8>)>,
    k: Seq<u8>,
    v: Seq<u8>,
)
    requires
        db_keys_unique(s0),
        db_get(s0, k) is None,
        s1.len() == s0.len() + 1,
        s1[s1.len() - 1].0@ == k,
        s1[s1.len() - 1].1@ == v,
        forall|j: int| 0 <= j < s0.len() ==> s1[j] == s0[j],
    ensures
        db_keys_unique(s1),
        forall|k2: Seq<u8>|
            #![trigger db_get(s1, k2)]
            db_get(s1, k2) == (if k2 == k {
                Some(v)
            } else {
                db_get(s0, k2)
            }),
{
    assert(s1 =~= s0.push(s1[s1.len() - 1]));
    assert forall|k2: Seq<u8>| #![trigger db_get(s1, k2)] db_get(s1, k2) == (if k2 == k {
        Some(v)
    } else {
        db_get(s0, k2)
    }) by {
        lemma_db_push(s0, s1[s1.len() - 1], k2);
    }
    assert forall|a: int, b: int| 0 <= a < b < s1.len() implies (#[trigger] s1[a]).0@ != (
    #[trigger] s1[b]).0@ by {
        if b == s1.len() - 1 {
            if s1[a].0@ == k {
                lemma_db_get_found(s0, k);
                assert(exists|x: int| 0 <= x < s0.len() && (#[trigger] s0[x]).0@ == k) by {
                    assert(s0[a].0@ == k);
                }
                lemma_db_get_some_of_entry(s0, a, k);
            }
        }
    }
}

/// An entry's key is always found by the lookup.
proof fn lemma_db_get_some_of_entry(s: Seq<(Vec<u8>, Vec<u8>)>, i: int, k: Seq<u8>)
    requires
        0 <= i < s.len(),
        s[i].0@ == k,
    ensures
        db_get(s, k) is Some,
    decreases s.len(),
{
    if s[0].0@ != k {
        assert(s.drop_first()[i - 1] == s[i]);
        lemma_db_get_some_of_entry(s.drop_first(), i - 1, k);
    }
}

} // verus!
