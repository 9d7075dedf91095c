//! A time-windowed key-value store. Each entry remembers when it was written;
//! a read at time `now` sees it only while `now - inserted_at < lifespan`.
//! Expiry is lazy: nothing is removed until that key is next looked at.
use vstd::prelude::*;

use crate::text::str_eq;

verus! {

/// Whether an entry written at `inserted_at` is still fresh at `now`.
pub open spec fn is_fresh(inserted_at: u64, now: u64, lifespan: u64) -> bool {
    (now as int) - (inserted_at as int) < lifespan as int
}

/// What a read of `key` at `now` gives: the stored value while it is fresh.
pub open spec fn lookup<V>(m: Map<Seq<char>, (V, u64)>, key: Seq<char>, now: u64, lifespan: u64) -> Option<V> {
    if m.contains_key(key) && is_fresh(m[key].1, now, lifespan) {
        Some(m[key].0)
    } else {
        None
    }
}

struct CacheEntry<V> {
    key: String,
    value: V,
    inserted_at: u64,
}

/// A store of values by key, each valid for `lifespan` seconds after it was
/// written.
pub struct TimedCache<V> {
    lifespan: u64,
    entries: Vec<CacheEntry<V>>,
    model: Ghost<Map<Seq<char>, (V, u64)>>,
}

impl<V> View for TimedCache<V> {
    type V = Map<Seq<char>, (V, u64)>;

    closed spec fn view(&self) -> Map<Seq<char>, (V, u64)> {
        self.model@
    }
}

fn fresh(inserted_at: u64, now: u64, lifespan: u64) -> (r: bool)
    ensures
        r == is_fresh(inserted_at, now, lifespan),
{
    if now < inserted_at {
        true
    } else {
        now - inserted_at < lifespan
    }
}

impl<V> TimedCache<V> {
    /// The entries match the model, one entry per key.
    pub closed spec fn wf(&self) -> bool {
        &&& forall|i: int, j: int|
            0 <= i < j < self.entries@.len() ==> #[trigger] self.entries@[i].key@
                != #[trigger] self.entries@[j].key@
        &&& forall|i: int|
            0 <= i < self.entries@.len() ==> #[trigger] self.model@.contains_key(
                self.entries@[i].key@,
            ) && self.model@[self.entries@[i].key@] == (
                self.entries@[i].value,
                self.entries@[i].inserted_at,
            )
        &&& forall|k: Seq<char>|
            #[trigger] self.model@.contains_key(k) ==> exists|i: int|
                0 <= i < self.entries@.len() && #[trigger] self.entries@[i].key@ == k
    }

    /// How long an entry stays fresh, in seconds.
    pub closed spec fn spec_lifespan(&self) -> u64 {
        self.lifespan
    }

    /// An empty cache whose entries stay fresh for `lifespan` seconds.
    pub fn with_lifespan(lifespan: u64) -> (r: TimedCache<V>)
        ensures
            r.wf(),
            r@ == Map::<Seq<char>, (V, u64)>::empty(),
            r.spec_lifespan() == lifespan,
    {
        TimedCache { lifespan, entries: Vec::new(), model: Ghost(Map::empty()) }
    }

    /// How long an entry stays fresh, in seconds.
    pub fn lifespan(&self) -> (r: u64)
        ensures
            r == self.spec_lifespan(),
    {
        self.lifespan
    }

    fn position(&self, key: &str) -> (r: Option<usize>)
        requires
            self.wf(),
        ensures
            r matches Some(i) ==> i < self.entries@.len() && self.entries@[i as int].key@ == key@,
            r is None ==> !self@.contains_key(key@),
    {
        let mut i: usize = 0;
        while i < self.entries.len()
            invariant
                self.wf(),
                i <= self.entries@.len(),
                forall|j: int| 0 <= j < i ==> #[trigger] self.entries@[j].key@ != key@,
            decreases self.entries@.len() - i,
        {
            if str_eq(self.entries[i].key.as_str(), key) {
                return Some(i);
            }
            i = i + 1;
        }
        None
    }

    /// The value of `key` if it was written less than `lifespan` seconds
    /// before `now`.
    pub fn get(&self, key: &str, now: u64) -> (r: Option<&V>)
        requires
            self.wf(),
        ensures
            r matches Some(v) ==> lookup(self@, key@, now, self.spec_lifespan()) == Some(*v),
            r is None ==> lookup(self@, key@, now, self.spec_lifespan()) is None,
    {
        match self.position(key) {
            Some(i) => {
                if fresh(self.entries[i].inserted_at, now, self.lifespan) {
                    Some(&self.entries[i].value)
                } else {
                    None
                }
            },
            None => None,
        }
    }

    /// Drops the entry of `key` if it is no longer fresh at `now`, and says
    /// whether it did.
    pub fn remove_if_expired(&mut self, key: &str, now: u64) -> (r: bool)
        requires
            old(self).wf(),
        ensures
            final(self).wf(),
            final(self).spec_lifespan() == old(self).spec_lifespan(),
            r == (old(self)@.contains_key(key@) && !is_fresh(
                old(self)@[key@].1,
                now,
                old(self).spec_lifespan(),
            )),
            final(self)@ == (if r {
                old(self)@.remove(key@)
            } else {
                old(self)@
            }),
    {
        match self.position(key) {
            Some(i) => {
                assert(self.model@.contains_key(self.entries@[i as int].key@));
                if fresh(self.entries[i].inserted_at, now, self.lifespan) {
                    false
                } else {
                    let ghost old_entries = self.entries@;
                    let ghost k = key@;
                    self.entries.remove(i);
                    self.model = Ghost(self.model@.remove(k));
                    proof {
                        assert forall|j: int|
                            0 <= j < self.entries@.len() implies #[trigger] self.model@.contains_key(
                            self.entries@[j].key@,
                        ) && self.model@[self.entries@[j].key@] == (
                            self.entries@[j].value,
                            self.entries@[j].inserted_at,
                        ) by {
                            if j < i {
                                assert(self.entries@[j] == old_entries[j]);
                                assert(old_entries[j].key@ != old_entries[i as int].key@);
                            } else {
                                assert(self.entries@[j] == old_entries[j + 1]);
                                assert(old_entries[j + 1].key@ != old_entries[i as int].key@);
                            }
                        }
                        assert forall|k2: Seq<char>|
                            #[trigger] self.model@.contains_key(k2) implies exists|j: int|
                                0 <= j < self.entries@.len() && #[trigger] self.entries@[j].key@
                                    == k2 by {
                            let j0 = choose|j: int|
                                0 <= j < old_entries.len() && #[trigger] old_entries[j].key@ == k2;
                            if j0 < i {
                                assert(self.entries@[j0] == old_entries[j0]);
                            } else {
                                assert(j0 != i);
                                assert(self.entries@[j0 - 1] == old_entries[j0]);
                            }
                        }
                        assert forall|a: int, b: int|
                            0 <= a < b < self.entries@.len() implies #[trigger] self.entries@[a].key@
                            != #[trigger] self.entries@[b].key@ by {
                            let oa = if a < i { a } else { a + 1 };
                            let ob = if b < i { b } else { b + 1 };
                            assert(self.entries@[a] == old_entries[oa]);
                            assert(self.entries@[b] == old_entries[ob]);
                        }
                    }
                    true
                }
            },
            None => false,
        }
    }

    /// Writes `value` for `key` at time `now`, replacing any earlier entry.
    pub fn set(&mut self, key: String, value: V, now: u64)
        requires
            old(self).wf(),
        ensures
            final(self).wf(),
            final(self).spec_lifespan() == old(self).spec_lifespan(),
            final(self)@ == old(self)@.insert(key@, (value, now)),
    {
        let ghost k = key@;
        let ghost old_entries = self.entries@;
        match self.position(key.as_str()) {
            Some(i) => {
                self.entries.set(i, CacheEntry { key, value, inserted_at: now });
                self.model = Ghost(self.model@.insert(k, (value, now)));
                proof {
                    assert forall|j: int|
                        0 <= j < self.entries@.len() implies #[trigger] self.model@.contains_key(
                        self.entries@[j].key@,
                    ) && self.model@[self.entries@[j].key@] == (
                        self.entries@[j].value,
                        self.entries@[j].inserted_at,
                    ) by {
                        if j != i {
                            assert(self.entries@[j] == old_entries[j]);
                            assert(old_entries[j].key@ != old_entries[i as int].key@);
                        }
                    }
                    assert forall|k2: Seq<char>|
                        #[trigger] self.model@.contains_key(k2) implies exists|j: int|
                            0 <= j < self.entries@.len() && #[trigger] self.entries@[j].key@
                                == k2 by {
                        if k2 != k {
                            let j0 = choose|j: int|
                                0 <= j < old_entries.len() && #[trigger] old_entries[j].key@ == k2;
                            assert(j0 != i);
                            assert(self.entries@[j0] == old_entries[j0]);
                        } else {
                            assert(self.entries@[i as int].key@ == k2);
                        }
                    }
                    assert forall|a: int, b: int|
                        0 <= a < b < self.entries@.len() implies #[trigger] self.entries@[a].key@
                        != #[trigger] self.entries@[b].key@ by {
                        if a != i {
                            assert(self.entries@[a] == old_entries[a]);
                        }
                        if b != i {
                            assert(self.entries@[b] == old_entries[b]);
                        }
                    }
                }
            },
            None => {
                self.entries.push(CacheEntry { key, value, inserted_at: now });
                self.model = Ghost(self.model@.insert(k, (value, now)));
                proof {
                    let n = old_entries.len() as int;
                    assert forall|j: int|
                        0 <= j < self.entries@.len() implies #[trigger] self.model@.contains_key(
                        self.entries@[j].key@,
                    ) && self.model@[self.entries@[j].key@] == (
                        self.entries@[j].value,
                        self.entries@[j].inserted_at,
                    ) by {
                        if j < n {
                            assert(self.entries@[j] == old_entries[j]);
                        }
                    }
                    assert forall|k2: Seq<char>|
                        #[trigger] self.model@.contains_key(k2) implies exists|j: int|
                            0 <= j < self.entries@.len() && #[trigger] self.entries@[j].key@
                                == k2 by {
                        if k2 != k {
                            let j0 = choose|j: int|
                                0 <= j < old_entries.len() && #[trigger] old_entries[j].key@ == k2;
                            assert(self.entries@[j0] == old_entries[j0]);
                        } else {
                            assert(self.entries@[n].key@ == k2);
                        }
                    }
                    assert forall|a: int, b: int|
                        0 <= a < b < self.entries@.len() implies #[trigger] self.entries@[a].key@
                        != #[trigger] self.entries@[b].key@ by {
                        assert(self.entries@[a] == old_entries[a]);
                        if b < n {
                            assert(self.entries@[b] == old_entries[b]);
                        } else {
                            assert(old_entries[a].key@ != k);
                        }
                    }
                }
            },
        }
    }
}

/// A value written at `t0` is read back unchanged at any time `t >= t0`
/// before `t0 + lifespan`, and is absent from `t0 + lifespan` on.
pub proof fn lemma_cache_freshness<V>(
    m: Map<Seq<char>, (V, u64)>,
    key: Seq<char>,
    value: V,
    t0: u64,
    t: u64,
    lifespan: u64,
)
    requires
        t >= t0,
    ensures
        t < t0 + lifespan ==> lookup(m.insert(key, (value, t0)), key, t, lifespan) == Some(value),
        t >= t0 + lifespan ==> lookup(m.insert(key, (value, t0)), key, t, lifespan) is None,
{
}

} // verus!
