//! A time-bounded memoizer, the only long-lived state of the core: it
//! answers a read with a previously stored value while that value is
//! younger than the time-to-live, and stores only successful results.
//! Expiry is lazy, at read time; no background sweep is needed.

use vstd::prelude::*;

use crate::Error;
use crate::strutil::str_eq;

verus! {

/// The default time-to-live of every cached operation, in seconds.
pub const DEFAULT_TTL: i64 = 86400;

/// One cache entry: a key, the value stored for it, and when it was stored.
struct Entry<V> {
    key: String,
    value: V,
    stored_at: i64,
}

/// A TTL cache mapping string keys to values of one computation's result
/// type. Each cached operation gets a cache (and so a key space) of its own.
pub struct TtlCache<V> {
    entries: Vec<Entry<V>>,
    ttl: i64,
}

impl<V> TtlCache<V> {
    /// The time-to-live, in seconds.
    pub closed spec fn spec_ttl(self) -> int {
        self.ttl as int
    }

    /// Well-formed: a positive TTL, no key stored twice, and no entry
    /// from before the epoch.
    pub closed spec fn wf(self) -> bool {
        &&& self.ttl > 0
        &&& forall|i: int, j: int|
            0 <= i < j < self.entries@.len() ==> self.entries@[i].key@ != self.entries@[j].key@
        &&& forall|i: int| 0 <= i < self.entries@.len() ==> self.entries@[i].stored_at >= 0
    }

    /// What the cache holds for a key: the value and the time it was
    /// stored, regardless of age.
    pub closed spec fn stored(self, key: Seq<char>) -> Option<(V, int)> {
        if exists|i: int| 0 <= i < self.entries@.len() && self.entries@[i].key@ == key {
            let i = choose|i: int|
                0 <= i < self.entries@.len() && self.entries@[i].key@ == key;
            Some((self.entries@[i].value, self.entries@[i].stored_at as int))
        } else {
            None
        }
    }

    /// The read semantics: the stored value exactly when one is present
    /// and its age is below the TTL.
    pub open spec fn spec_lookup(self, key: Seq<char>, now: int) -> Option<V> {
        match self.stored(key) {
            Some((v, t)) => if now - t < self.spec_ttl() {
                Some(v)
            } else {
                None
            },
            None => None,
        }
    }

    /// Creates an empty cache with the given time-to-live in seconds.
    pub fn new(ttl: i64) -> (c: Self)
        requires
            ttl > 0,
        ensures
            c.wf(),
            c.spec_ttl() == ttl,
            forall|k: Seq<char>| c.stored(k) is None,
    {
        TtlCache { entries: Vec::new(), ttl }
    }

    /// Shows that an entry found at an index is what `stored` yields,
    /// by the uniqueness of keys.
    proof fn lemma_stored_at_idx(self, i: int)
        requires
            self.wf(),
            0 <= i < self.entries@.len(),
        ensures
            self.stored(self.entries@[i].key@) == Some(
                (self.entries@[i].value, self.entries@[i].stored_at as int),
            ),
    {
        let key = self.entries@[i].key@;
        assert(exists|j: int| 0 <= j < self.entries@.len() && self.entries@[j].key@ == key);
        let j = choose|j: int| 0 <= j < self.entries@.len() && self.entries@[j].key@ == key;
        if j < i {
            assert(self.entries@[j].key@ != self.entries@[i].key@);
        } else if i < j {
            assert(self.entries@[i].key@ != self.entries@[j].key@);
        }
    }

    /// Returns the cached value for the key if it is still fresh at
    /// time `now`, without running anything.
    pub fn lookup(&self, key: &str, now: i64) -> (r: Option<&V>)
        requires
            self.wf(),
            now >= 0,
        ensures
            match r {
                Some(v) => self.spec_lookup(key@, now as int) == Some(*v),
                None => self.spec_lookup(key@, now as int) is None,
            },
    {
        let mut i: usize = 0;
        while i < self.entries.len()
            invariant
                self.wf(),
                now >= 0,
                i <= self.entries@.len(),
                forall|j: int| 0 <= j < i ==> self.entries@[j].key@ != key@,
            decreases self.entries@.len() - i,
        {
            if str_eq(self.entries[i].key.as_str(), key) {
                proof {
                    self.lemma_stored_at_idx(i as int);
                }
                if now - self.entries[i].stored_at < self.ttl {
                    return Some(&self.entries[i].value);
                } else {
                    return None;
                }
            }
            i += 1;
        }
        proof {
            if self.stored(key@) is Some {
                let j = choose|j: int|
                    0 <= j < self.entries@.len() && self.entries@[j].key@ == key@;
                assert(self.entries@[j].key@ != key@);
            }
        }
        None
    }

    /// Stores a value for the key at time `now`, replacing what the key
    /// held before; other keys are untouched.
    pub fn store(&mut self, key: &str, value: V, now: i64)
        requires
            old(self).wf(),
            now >= 0,
        ensures
            final(self).wf(),
            final(self).spec_ttl() == old(self).spec_ttl(),
            final(self).stored(key@) == Some((value, now as int)),
            forall|k: Seq<char>| k != key@ ==> final(self).stored(k) == old(self).stored(k),
    {
        let mut i: usize = 0;
        while i < self.entries.len()
            invariant
                self.wf(),
                *self == *old(self),
                now >= 0,
                i <= self.entries@.len(),
                forall|j: int| 0 <= j < i ==> self.entries@[j].key@ != key@,
            decreases self.entries@.len() - i,
        {
            if str_eq(self.entries[i].key.as_str(), key) {
                self.entries[i] = Entry { key: key.to_owned(), value, stored_at: now };
                proof {
                    assert(forall|a: int, b: int|
                        0 <= a < b < self.entries@.len() ==> self.entries@[a].key@
                            != self.entries@[b].key@);
                    self.lemma_stored_at_idx(i as int);
                    assert forall|k: Seq<char>| k != key@ implies final(self).stored(k) == old(
                        self,
                    ).stored(k) by {
                        self.lemma_stored_other(*old(self), i as int, k);
                    }
                }
                return ;
            }
            i += 1;
        }
        self.entries.push(Entry { key: key.to_owned(), value, stored_at: now });
        proof {
            let n = self.entries@.len() - 1;
            assert(forall|a: int, b: int|
                0 <= a < b < n ==> self.entries@[a].key@ != self.entries@[b].key@);
            assert(forall|a: int| 0 <= a < n ==> self.entries@[a].key@ != key@);
            self.lemma_stored_at_idx(n);
            assert forall|k: Seq<char>| k != key@ implies final(self).stored(k) == old(
                self,
            ).stored(k) by {
                self.lemma_stored_other(*old(self), n, k);
            }
        }
    }

    /// After one entry changed or was added at index `i` under `key`,
    /// every other key resolves as it did before.
    proof fn lemma_stored_other(self, prev: Self, i: int, k: Seq<char>)
        requires
            self.wf(),
            prev.wf(),
            0 <= i < self.entries@.len(),
            k != self.entries@[i].key@,
            self.entries@.len() == prev.entries@.len() || self.entries@.len() == prev.entries@.len()
                + 1,
            self.entries@.len() == prev.entries@.len() + 1 ==> i == prev.entries@.len(),
            self.entries@.len() == prev.entries@.len() ==> prev.entries@[i].key@
                == self.entries@[i].key@,
            forall|j: int|
                0 <= j < self.entries@.len() && j != i ==> self.entries@[j] == prev.entries@[j],
        ensures
            self.stored(k) == prev.stored(k),
    {
        if exists|j: int| 0 <= j < self.entries@.len() && self.entries@[j].key@ == k {
            let j = choose|j: int| 0 <= j < self.entries@.len() && self.entries@[j].key@ == k;
            assert(j != i);
            assert(prev.entries@[j].key@ == k);
            prev.lemma_stored_at_idx(j);
            self.lemma_stored_at_idx(j);
        } else {
            if exists|j: int| 0 <= j < prev.entries@.len() && prev.entries@[j].key@ == k {
                let j = choose|j: int| 0 <= j < prev.entries@.len() && prev.entries@[j].key@ == k;
                assert(j != i);
                assert(self.entries@[j].key@ == k);
            }
        }
    }
}

/// Law: a read with the same key within the TTL window after a store
/// answers with the stored value, so the underlying computation is not
/// re-invoked by a caching driver.
pub proof fn lemma_hit_within_ttl<V>(c: TtlCache<V>, key: Seq<char>, v: V, t_store: int, t_read: int)
    requires
        c.stored(key) == Some((v, t_store)),
        t_read - t_store < c.spec_ttl(),
    ensures
        c.spec_lookup(key, t_read) == Some(v),
{
}

/// Law: a read at or past the TTL no longer answers from the cache, so a
/// caching driver re-invokes the underlying computation.
pub proof fn lemma_miss_after_ttl<V>(c: TtlCache<V>, key: Seq<char>, v: V, t_store: int, t_read: int)
    requires
        c.stored(key) == Some((v, t_store)),
        t_read - t_store >= c.spec_ttl(),
    ensures
        c.spec_lookup(key, t_read) is None,
{
}

impl TtlCache<String> {
    /// The memoizer around a computation with string results (such as
    /// redirect resolution). On a fresh hit it answers from the cache
    /// without invoking `compute`; on a miss it invokes `compute`,
    /// stores the result on success only, and hands the result through.
    /// The second component reports whether `compute` ran.
    pub fn get_or_compute<F: FnOnce() -> Result<String, Error>>(
        &mut self,
        key: &str,
        now: i64,
        compute: F,
    ) -> (r: (Result<String, Error>, bool))
        requires
            old(self).wf(),
            now >= 0,
            call_requires(compute, ()),
        ensures
            final(self).wf(),
            final(self).spec_ttl() == old(self).spec_ttl(),
            old(self).spec_lookup(key@, now as int) matches Some(v) ==> !r.1 && *final(self) == *old(self)
                && (r.0 matches Ok(u) && u@ == v@),
            old(self).spec_lookup(key@, now as int) is None ==> r.1 && call_ensures(
                compute,
                (),
                r.0,
            ),
            r.1 ==> (match r.0 {
                Ok(u) => final(self).stored(key@) matches Some((w, t)) && w@ == u@ && t == now,
                Err(_) => true,
            }),
            (r.1 && r.0 is Ok) ==> forall|k: Seq<char>|
                k != key@ ==> final(self).stored(k) == old(self).stored(k),
            r.0 is Err ==> *final(self) == *old(self),
    {
        let cached: Option<String> = match self.lookup(key, now) {
            Some(v) => Some(v.clone()),
            None => None,
        };
        match cached {
            Some(u) => (Ok(u), false),
            None => {
                let res = compute();
                match res {
                    Ok(u) => {
                        self.store(key, u.clone(), now);
                        (Ok(u), true)
                    },
                    Err(e) => (Err(e), true),
                }
            },
        }
    }
}

} // verus!
