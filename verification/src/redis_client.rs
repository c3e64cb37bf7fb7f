//! The in-memory stand-in for Redis: string values under string keys, with an
//! optional expiry of at most one day.
use vstd::prelude::*;
use crate::text::{chars_eq, chars_of};

verus! {

/// `std::time::Instant`, carried as an opaque value.
#[verifier::external_type_specification]
#[verifier::external_body]
pub struct ExInstant(std::time::Instant);

/// `std::time::Instant::now`.  Nothing is claimed of the result.
#[verifier::external_body]
fn instant_now() -> std::time::Instant {
    std::time::Instant::now()
}

/// `std::time::Instant::elapsed`, in nanoseconds (`Duration::as_nanos`).
/// The result depends on the clock: nothing is claimed of it.
#[verifier::external_body]
fn nanos_since(origin: &std::time::Instant) -> u128 {
    origin.elapsed().as_nanos()
}

/// The longest expiry, in seconds: one day.
pub const MAX_EXPIRY_SECS: u64 = 86400;

/// Nanoseconds in a second.
pub const NANOS_PER_SEC: u128 = 1_000_000_000;

/// A stored value and the time, in nanoseconds since the emulator was made,
/// after which it is gone.
pub struct EmulatorEntry {
    pub key: String,
    pub value: String,
    pub expires_at: Option<u128>,
}

/// The emulator's contents, as plain values: for each key, its value and its expiry.
pub type Store = Map<Seq<char>, (Seq<char>, Option<u128>)>;

/// An in-memory key/value store with expiry.
pub struct RedisEmulator {
    origin: std::time::Instant,
    entries: Vec<EmulatorEntry>,
}

/// The store that a sequence of entries holds (a later entry of the same key wins).
pub open spec fn store_of(s: Seq<(Seq<char>, Seq<char>, Option<u128>)>) -> Store
    decreases s.len(),
{
    if s.len() == 0 {
        Map::empty()
    } else {
        store_of(s.drop_last()).insert(s.last().0, (s.last().1, s.last().2))
    }
}

/// The expiry of a value set at `now` with `ex` seconds: the seconds capped
/// at one day.
pub open spec fn expiry_after(now: u128, ex: Option<u64>) -> Option<u128> {
    match ex {
        None => None,
        Some(sec) => {
            let capped: u128 = if sec > MAX_EXPIRY_SECS {
                MAX_EXPIRY_SECS as u128
            } else {
                sec as u128
            };
            let t = now + capped * NANOS_PER_SEC;
            Some(if t > u128::MAX { u128::MAX } else { t as u128 })
        },
    }
}

/// The store after `set(key, value, ex)` at `now`.
pub open spec fn store_set(st: Store, key: Seq<char>, value: Seq<char>, ex: Option<u64>, now: u128) -> Store {
    st.insert(key, (value, expiry_after(now, ex)))
}

/// The key holds a value that has not expired at `now`.
pub open spec fn live(st: Store, key: Seq<char>, now: u128) -> bool {
    st.contains_key(key) && match st[key].1 {
        Some(e) => now <= e,
        None => true,
    }
}

/// What `get(key)` at `now` returns.
pub open spec fn store_get(st: Store, key: Seq<char>, now: u128) -> Option<Seq<char>> {
    if live(st, key, now) {
        Some(st[key].0)
    } else {
        None
    }
}

/// The store after `get(key)` at `now`: an expired key is dropped.
pub open spec fn store_after_get(st: Store, key: Seq<char>, now: u128) -> Store {
    if st.contains_key(key) && !live(st, key, now) {
        st.remove(key)
    } else {
        st
    }
}

impl EmulatorEntry {
    pub open spec fn spec_tuple(&self) -> (Seq<char>, Seq<char>, Option<u128>) {
        (self.key@, self.value@, self.expires_at)
    }
}

impl RedisEmulator {
    /// The entries as plain values.
    pub closed spec fn entries_view(&self) -> Seq<(Seq<char>, Seq<char>, Option<u128>)> {
        Seq::new(self.entries@.len(), |i: int| self.entries@[i].spec_tuple())
    }

    /// The contents.
    pub closed spec fn store(&self) -> Store {
        store_of(self.entries_view())
    }

    /// No key is stored twice.
    pub closed spec fn wf(&self) -> bool {
        forall|i: int, j: int| 0 <= i < j < self.entries@.len() ==> self.entries@[i].key@ != self.entries@[j].key@
    }

    /// An empty store whose clock starts now.
    pub fn new() -> (r: RedisEmulator)
        ensures
            r.wf(),
            r.store() == Store::empty(),
    {
        let r = RedisEmulator { origin: instant_now(), entries: Vec::new() };
        assert(r.entries_view() =~= Seq::<(Seq<char>, Seq<char>, Option<u128>)>::empty());
        r
    }

    /// The time now, in nanoseconds since the emulator was made.
    fn now(&self) -> u128 {
        nanos_since(&self.origin)
    }

    /// The position of `key`, if stored.
    fn position(&self, key: &Vec<char>) -> (r: Option<usize>)
        requires
            self.wf(),
        ensures
            match r {
                Some(i) => i < self.entries@.len() && self.entries@[i as int].key@ == key@,
                None => forall|i: int| 0 <= i < self.entries@.len() ==> self.entries@[i].key@ != key@,
            },
    {
        let mut i: usize = 0;
        while i < self.entries.len()
            invariant
                i <= self.entries@.len(),
                forall|m: int| 0 <= m < i ==> self.entries@[m].key@ != key@,
            decreases self.entries.len() - i,
        {
            let k = chars_of(self.entries[i].key.as_str());
            if chars_eq(&k, key) {
                return Some(i);
            }
            i = i + 1;
        }
        None
    }

    /// The value of a key at time `now`; a key whose expiry has passed is
    /// dropped and gives `None`.
    pub fn get_at(&mut self, key: &str, now: u128) -> (r: Option<String>)
        requires
            old(self).wf(),
        ensures
            final(self).wf(),
            r.deep_view() == store_get(old(self).store(), key@, now),
            final(self).store() == store_after_get(old(self).store(), key@, now),
    {
        let k = chars_of(key);
        proof {
            lemma_store_entries(self.entries_view());
        }
        match self.position(&k) {
            None => {
                proof {
                    lemma_store_absent(self.entries_view(), key@);
                }
                None
            },
            Some(i) => {
                proof {
                    lemma_store_at(self.entries_view(), i as int);
                }
                let expired = match self.entries[i].expires_at {
                    Some(e) => now > e,
                    None => false,
                };
                if expired {
                    let ghost before = self.entries_view();
                    self.entries.remove(i);
                    proof {
                        assert(self.entries_view() =~= before.remove(i as int));
                        lemma_store_remove(before, i as int);
                    }
                    None
                } else {
                    Some(self.entries[i].value.clone())
                }
            },
        }
    }

    /// Stores `value` under `key` at time `now`, expiring after `ex` seconds
    /// (at most one day) or never; an earlier value and expiry are replaced.
    pub fn set_at(&mut self, key: &str, value: &str, ex: Option<u64>, now: u128)
        requires
            old(self).wf(),
        ensures
            final(self).wf(),
            final(self).store() == store_set(old(self).store(), key@, value@, ex, now),
    {
        let expires_at = match ex {
            None => None,
            Some(sec) => {
                let capped: u128 = if sec > MAX_EXPIRY_SECS {
                    MAX_EXPIRY_SECS as u128
                } else {
                    sec as u128
                };
                let add = capped * NANOS_PER_SEC;
                Some(if now > u128::MAX - add {
                    u128::MAX
                } else {
                    now + add
                })
            },
        };
        assert(expires_at == expiry_after(now, ex));
        self.delete(key);
        let ghost before = self.entries_view();
        let entry = EmulatorEntry { key: key.to_owned(), value: value.to_owned(), expires_at };
        self.entries.push(entry);
        proof {
            assert(self.entries_view() =~= before.push((key@, value@, expires_at)));
            assert(self.entries_view().drop_last() =~= before);
            let n = self.entries@.len();
            assert forall|a: int, b: int| 0 <= a < b < n implies self.entries@[a].key@ != self.entries@[b].key@ by {
                assert(self.entries_view()[a] == self.entries@[a].spec_tuple());
                assert(self.entries_view()[b] == self.entries@[b].spec_tuple());
                if b == n - 1 {
                    assert(before[a].0 != key@);
                } else {
                    assert(before[a] == self.entries_view()[a]);
                    assert(before[b] == self.entries_view()[b]);
                }
            }
        }
    }

    /// Removes `key`.
    pub fn delete(&mut self, key: &str)
        requires
            old(self).wf(),
        ensures
            final(self).wf(),
            final(self).store() == old(self).store().remove(key@),
            forall|i: int| 0 <= i < final(self).entries_view().len() ==> final(self).entries_view()[i].0 != key@,
    {
        let k = chars_of(key);
        proof {
            lemma_store_entries(self.entries_view());
        }
        match self.position(&k) {
            None => {
                proof {
                    lemma_store_absent(self.entries_view(), key@);
                    assert(self.store().remove(key@) =~= self.store());
                }
            },
            Some(i) => {
                let ghost before = self.entries_view();
                self.entries.remove(i);
                proof {
                    assert(self.entries_view() =~= before.remove(i as int));
                    lemma_store_remove(before, i as int);
                    assert forall|m: int| 0 <= m < self.entries_view().len() implies self.entries_view()[m].0 != key@ by {
                        if m < i {
                            assert(self.entries_view()[m] == before[m]);
                        } else {
                            assert(self.entries_view()[m] == before[m + 1]);
                        }
                    }
                }
            },
        }
    }

    /// Whether `key` holds a value at time `now` (dropping it if it has expired).
    pub fn exists_at(&mut self, key: &str, now: u128) -> (r: bool)
        requires
            old(self).wf(),
        ensures
            final(self).wf(),
            r == live(old(self).store(), key@, now),
            final(self).store() == store_after_get(old(self).store(), key@, now),
    {
        self.get_at(key, now).is_some()
    }

    /// The value of a key now.  Whatever the clock reads, the result and the
    /// new contents are those of `get_at` at some time no earlier than the
    /// emulator's creation.
    pub fn get(&mut self, key: &str) -> (r: Option<String>)
        requires
            old(self).wf(),
        ensures
            final(self).wf(),
            exists|now: u128| r.deep_view() == store_get(old(self).store(), key@, now)
                && final(self).store() == store_after_get(old(self).store(), key@, now),
    {
        let now = self.now();
        self.get_at(key, now)
    }

    /// Stores a value now, expiring after `ex` seconds (at most one day).
    pub fn set(&mut self, key: &str, value: &str, ex: Option<u64>)
        requires
            old(self).wf(),
        ensures
            final(self).wf(),
            exists|now: u128| final(self).store() == store_set(old(self).store(), key@, value@, ex, now),
    {
        let now = self.now();
        self.set_at(key, value, ex, now)
    }

    /// Whether a key holds a value now.
    pub fn key_exists(&mut self, key: &str) -> (r: bool)
        requires
            old(self).wf(),
        ensures
            final(self).wf(),
            exists|now: u128| r == live(old(self).store(), key@, now)
                && final(self).store() == store_after_get(old(self).store(), key@, now),
    {
        let now = self.now();
        self.exists_at(key, now)
    }
}

/// With distinct keys, the store maps each stored key to its entry.
pub proof fn lemma_store_at(s: Seq<(Seq<char>, Seq<char>, Option<u128>)>, i: int)
    requires
        0 <= i < s.len(),
        forall|a: int, b: int| 0 <= a < b < s.len() ==> s[a].0 != s[b].0,
    ensures
        store_of(s).contains_key(s[i].0),
        store_of(s)[s[i].0] == (s[i].1, s[i].2),
    decreases s.len(),
{
    if i < s.len() - 1 {
        lemma_store_at(s.drop_last(), i);
    }
}

/// A key stored in no entry is not in the store.
pub proof fn lemma_store_absent(s: Seq<(Seq<char>, Seq<char>, Option<u128>)>, k: Seq<char>)
    requires
        forall|a: int| 0 <= a < s.len() ==> s[a].0 != k,
    ensures
        !store_of(s).contains_key(k),
    decreases s.len(),
{
    if s.len() > 0 {
        lemma_store_absent(s.drop_last(), k);
    }
}

/// Every key of the store is the key of an entry.
pub proof fn lemma_store_entries(s: Seq<(Seq<char>, Seq<char>, Option<u128>)>)
    ensures
        forall|k: Seq<char>| store_of(s).contains_key(k) ==> exists|a: int| 0 <= a < s.len() && s[a].0 == k,
    decreases s.len(),
{
    if s.len() > 0 {
        lemma_store_entries(s.drop_last());
        assert forall|k: Seq<char>| store_of(s).contains_key(k) implies exists|a: int| 0 <= a < s.len() && s[a].0 == k by {
            if k != s.last().0 {
                assert(store_of(s.drop_last()).contains_key(k));
                let a = choose|a: int| 0 <= a < s.drop_last().len() && s.drop_last()[a].0 == k;
                assert(s[a] == s.drop_last()[a]);
            } else {
                assert(s[s.len() - 1].0 == k);
            }
        }
    }
}

/// Removing the entry at `i` removes its key from the store and keeps the rest.
pub proof fn lemma_store_remove(s: Seq<(Seq<char>, Seq<char>, Option<u128>)>, i: int)
    requires
        0 <= i < s.len(),
        forall|a: int, b: int| 0 <= a < b < s.len() ==> s[a].0 != s[b].0,
    ensures
        store_of(s.remove(i)) == store_of(s).remove(s[i].0),
        forall|a: int, b: int| 0 <= a < b < s.remove(i).len() ==> s.remove(i)[a].0 != s.remove(i)[b].0,
{
    let r = s.remove(i);
    assert forall|a: int, b: int| 0 <= a < b < r.len() implies r[a].0 != r[b].0 by {
        let a2 = if a < i { a } else { a + 1 };
        let b2 = if b < i { b } else { b + 1 };
        assert(r[a] == s[a2]);
        assert(r[b] == s[b2]);
    }
    lemma_store_entries(r);
    lemma_store_entries(s);
    assert forall|k: Seq<char>| #[trigger] store_of(r).contains_key(k) == store_of(s).remove(s[i].0).contains_key(k) by {
        if store_of(r).contains_key(k) {
            let a = choose|a: int| 0 <= a < r.len() && r[a].0 == k;
            let a2 = if a < i { a } else { a + 1 };
            assert(r[a] == s[a2]);
            lemma_store_at(s, a2);
        }
        if store_of(s).remove(s[i].0).contains_key(k) {
            let a = choose|a: int| 0 <= a < s.len() && s[a].0 == k;
            assert(a != i);
            let a2 = if a < i { a } else { a - 1 };
            assert(r[a2] == s[a]);
            lemma_store_at(r, a2);
        }
    }
    assert forall|k: Seq<char>| #[trigger] store_of(r).contains_key(k) implies store_of(r)[k] == store_of(s).remove(s[i].0)[k] by {
        let a = choose|a: int| 0 <= a < r.len() && r[a].0 == k;
        let a2 = if a < i { a } else { a + 1 };
        assert(r[a] == s[a2]);
        lemma_store_at(r, a);
        lemma_store_at(s, a2);
    }
    assert(store_of(r) =~= store_of(s).remove(s[i].0));
}

} // verus!
