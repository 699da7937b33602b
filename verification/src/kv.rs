//! An in-memory model of the shared key-value backend.
//!
//! The backend holds rate-limit counters and cached feature records under
//! string keys, each with an optional expiry timestamp. Time enters as an
//! explicit second-resolution timestamp (`now`), and expiry is evaluated
//! lazily on access, as the real backend does. Losing this store must
//! never corrupt correctness: it is advisory, and the durable store stays
//! authoritative.

use vstd::prelude::*;
use vstd::map::*;
use crate::models::{Feature, FeatureView};

verus! {

/// A value held by the backend: a counter or a cached feature record.
#[derive(Debug)]
pub enum StoredValue {
    Count(u64),
    Record(Feature),
}

/// Mathematical image of a `StoredValue`.
pub enum StoredValueView {
    Count(u64),
    Record(FeatureView),
}

impl View for StoredValue {
    type V = StoredValueView;

    open spec fn view(&self) -> StoredValueView {
        match self {
            StoredValue::Count(n) => StoredValueView::Count(*n),
            StoredValue::Record(f) => StoredValueView::Record(f@),
        }
    }
}

impl Clone for StoredValue {
    fn clone(&self) -> (r: Self)
        ensures
            r@ == self@,
    {
        match self {
            StoredValue::Count(n) => StoredValue::Count(*n),
            StoredValue::Record(f) => StoredValue::Record(f.clone()),
        }
    }
}

/// One keyed cell of the backend.
#[derive(Debug)]
struct KvEntry {
    key: String,
    value: StoredValue,
    expires_at: Option<u64>,
}

/// What the backend holds under one key: the value and its expiry time,
/// if one is set.
pub struct KvCell {
    pub value: StoredValueView,
    pub expires_at: Option<u64>,
}

/// Whether a cell is still alive at `now`: a cell with an expiry dies the
/// moment the clock reaches it.
pub open spec fn cell_live(c: KvCell, now: u64) -> bool {
    match c.expires_at {
        Some(t) => now < t,
        None => true,
    }
}

/// The value visible under `k` in contents-map `m` at `now`: present and
/// unexpired, or nothing.
pub open spec fn map_live_value(m: Map<Seq<char>, KvCell>, k: Seq<char>, now: u64) -> Option<
    StoredValueView,
> {
    if m.dom().contains(k) && cell_live(m[k], now) {
        Some(m[k].value)
    } else {
        None
    }
}

/// The in-memory key-value backend.
pub struct KvStore {
    entries: Vec<KvEntry>,
}

impl KvStore {
    /// Each key occupies at most one cell.
    pub closed spec fn wf(self) -> bool {
        forall|i: int, j: int|
            0 <= i < j < self.entries@.len() ==> self.entries@[i].key@ != self.entries@[j].key@
    }

    /// The contents of the store as a map from key to cell, expired cells
    /// included; liveness is judged against `now` at each access.
    pub closed spec fn contents(self) -> Map<Seq<char>, KvCell> {
        Map::new(
            |k: Seq<char>|
                exists|i: int| 0 <= i < self.entries@.len() && self.entries@[i].key@ == k,
            |k: Seq<char>|
                {
                    let i = choose|i: int|
                        0 <= i < self.entries@.len() && self.entries@[i].key@ == k;
                    KvCell {
                        value: self.entries@[i].value@,
                        expires_at: self.entries@[i].expires_at,
                    }
                },
        )
    }

    /// The value visible under `k` at `now`: present and unexpired, or
    /// nothing.
    pub open spec fn live_value(self, k: Seq<char>, now: u64) -> Option<StoredValueView> {
        map_live_value(self.contents(), k, now)
    }

    /// The cell at index `i` is what `contents` maps its key to.
    proof fn lemma_entry_at(self, i: int)
        requires
            self.wf(),
            0 <= i < self.entries@.len(),
        ensures
            self.contents().dom().contains(self.entries@[i].key@),
            self.contents()[self.entries@[i].key@] == (KvCell {
                value: self.entries@[i].value@,
                expires_at: self.entries@[i].expires_at,
            }),
    {
        let k = self.entries@[i].key@;
        assert(0 <= i < self.entries@.len() && self.entries@[i].key@ == k);
        let j = choose|j: int| 0 <= j < self.entries@.len() && self.entries@[j].key@ == k;
        if j < i {
            assert(self.entries@[j].key@ != self.entries@[i].key@);
        } else if i < j {
            assert(self.entries@[i].key@ != self.entries@[j].key@);
        }
    }

    /// A fresh, empty backend.
    pub fn new() -> (s: Self)
        ensures
            s.wf(),
            s.contents() == Map::<Seq<char>, KvCell>::empty(),
    {
        let s = KvStore { entries: Vec::new() };
        proof {
            assert(s.contents() =~= Map::<Seq<char>, KvCell>::empty());
        }
        s
    }

    /// Where `key` is stored, if anywhere.
    fn find_index(&self, key: &String) -> (r: Option<usize>)
        requires
            self.wf(),
        ensures
            match r {
                Some(i) => i < self.entries@.len() && self.entries@[i as int].key@ == key@,
                None => !self.contents().dom().contains(key@),
            },
    {
        let mut i: usize = 0;
        while i < self.entries.len()
            invariant
                i <= self.entries@.len(),
                forall|j: int| 0 <= j < i ==> self.entries@[j].key@ != key@,
            decreases self.entries@.len() - i,
        {
            if self.entries[i].key == *key {
                return Some(i);
            }
            i = i + 1;
        }
        None
    }

    /// GET: the live value under `key` at `now`.
    pub fn get(&self, key: &String, now: u64) -> (r: Option<StoredValue>)
        requires
            self.wf(),
        ensures
            match r {
                Some(v) => self.live_value(key@, now) == Some(v@),
                None => self.live_value(key@, now) is None,
            },
    {
        match self.find_index(key) {
            Some(i) => {
                proof {
                    self.lemma_entry_at(i as int);
                }
                let live = match self.entries[i].expires_at {
                    Some(t) => now < t,
                    None => true,
                };
                if live {
                    Some(self.entries[i].value.clone())
                } else {
                    None
                }
            },
            None => None,
        }
    }

    /// EXISTS: whether a live value sits under `key` at `now`.
    pub fn exists_key(&self, key: &String, now: u64) -> (r: bool)
        requires
            self.wf(),
        ensures
            r == (self.live_value(key@, now) is Some),
    {
        self.get(key, now).is_some()
    }

    /// SET with expiry: binds `key` to `value` until `now + ttl_seconds`,
    /// replacing whatever was there.
    pub fn set_ex(&mut self, key: &String, value: StoredValue, ttl_seconds: u64, now: u64)
        requires
            old(self).wf(),
            now + ttl_seconds <= u64::MAX,
        ensures
            final(self).wf(),
            final(self).contents() == old(self).contents().insert(
                key@,
                KvCell { value: value@, expires_at: Some((now + ttl_seconds) as u64) },
            ),
    {
        let ghost pre = *self;
        let expires_at = Some(now + ttl_seconds);
        let entry = KvEntry { key: key.clone(), value, expires_at };
        let ghost ev = KvCell { value: entry.value@, expires_at: entry.expires_at };
        match self.find_index(key) {
            Some(i) => {
                self.entries[i] = entry;
                proof {
                    self.lemma_replace_at(pre, i as int, key@, ev);
                }
            },
            None => {
                self.entries.push(entry);
                proof {
                    self.lemma_push_new(pre, key@, ev);
                }
            },
        }
    }

    /// DEL: removes whatever sits under `key`.
    pub fn del(&mut self, key: &String)
        requires
            old(self).wf(),
        ensures
            final(self).wf(),
            final(self).contents() == old(self).contents().remove(key@),
    {
        let ghost pre = *self;
        match self.find_index(key) {
            Some(i) => {
                self.entries.remove(i);
                proof {
                    let n = self.entries@.len() as int;
                    assert forall|a: int, b: int|
                        0 <= a < b < n implies self.entries@[a].key@ != self.entries@[b].key@ by {
                        let pa = if a < i as int { a } else { a + 1 };
                        let pb = if b < i as int { b } else { b + 1 };
                        assert(self.entries@[a] == pre.entries@[pa]);
                        assert(self.entries@[b] == pre.entries@[pb]);
                        assert(pre.entries@[pa].key@ != pre.entries@[pb].key@);
                    }
                    pre.lemma_entry_at(i as int);
                    let kk = key@;
                    let target = pre.contents().remove(kk);
                    assert_maps_equal!(
                        self.contents(),
                        target,
                        k => {
                            if k == key@ {
                                if self.contents().dom().contains(k) {
                                    let j = choose|j: int|
                                        0 <= j < self.entries@.len()
                                        && self.entries@[j].key@ == k;
                                    let pj = if j < i as int { j } else { j + 1 };
                                    assert(self.entries@[j] == pre.entries@[pj]);
                                    assert(pre.entries@[pj].key@ != pre.entries@[i as int].key@);
                                }
                            } else {
                                if self.contents().dom().contains(k) {
                                    let j = choose|j: int|
                                        0 <= j < self.entries@.len()
                                        && self.entries@[j].key@ == k;
                                    let pj = if j < i as int { j } else { j + 1 };
                                    assert(self.entries@[j] == pre.entries@[pj]);
                                    self.lemma_entry_at(j);
                                    pre.lemma_entry_at(pj);
                                }
                                if pre.contents().dom().contains(k) {
                                    let pj = choose|pj: int|
                                        0 <= pj < pre.entries@.len()
                                        && pre.entries@[pj].key@ == k;
                                    let j = if pj < i as int { pj } else { pj - 1 };
                                    assert(pre.entries@[pj] == self.entries@[j]);
                                    pre.lemma_entry_at(pj);
                                    self.lemma_entry_at(j);
                                }
                            }
                        }
                    );
                }
            },
            None => {
                proof {
                    assert(self.contents() =~= pre.contents().remove(key@));
                }
            },
        }
    }

    /// INCR: advances the counter under `key`, creating it at one if the
    /// key is absent or expired; a key holding a non-counter value, or a
    /// counter at its maximum, is an error and nothing changes.
    pub fn incr(&mut self, key: &String, now: u64) -> (r: Result<u64, ()>)
        requires
            old(self).wf(),
        ensures
            final(self).wf(),
            match old(self).live_value(key@, now) {
                None => r == Ok::<u64, ()>(1u64) && final(self).contents()
                    == old(self).contents().insert(
                    key@,
                    KvCell { value: StoredValueView::Count(1), expires_at: None },
                ),
                Some(StoredValueView::Count(n)) => if n < u64::MAX {
                    r == Ok::<u64, ()>((n + 1) as u64) && final(self).contents()
                        == old(self).contents().insert(
                        key@,
                        KvCell {
                            value: StoredValueView::Count((n + 1) as u64),
                            expires_at: old(self).contents()[key@].expires_at,
                        },
                    )
                } else {
                    r == Err::<u64, ()>(()) && final(self).contents() == old(self).contents()
                },
                Some(StoredValueView::Record(_)) => r == Err::<u64, ()>(()) && final(self).contents()
                    == old(self).contents(),
            },
    {
        let ghost pre = *self;
        match self.find_index(key) {
            Some(i) => {
                proof {
                    self.lemma_entry_at(i as int);
                }
                let live = match self.entries[i].expires_at {
                    Some(t) => now < t,
                    None => true,
                };
                if !live {
                    let entry = KvEntry {
                        key: key.clone(),
                        value: StoredValue::Count(1),
                        expires_at: None,
                    };
                    let ghost ev = KvCell { value: entry.value@, expires_at: entry.expires_at };
                    self.entries[i] = entry;
                    proof {
                        self.lemma_replace_at(pre, i as int, key@, ev);
                    }
                    Ok(1)
                } else {
                    let current: Option<u64> = match &self.entries[i].value {
                        StoredValue::Count(n) => Some(*n),
                        StoredValue::Record(_) => None,
                    };
                    match current {
                        Some(n) => {
                            if n < u64::MAX {
                                let entry = KvEntry {
                                    key: key.clone(),
                                    value: StoredValue::Count(n + 1),
                                    expires_at: self.entries[i].expires_at,
                                };
                                let ghost ev = KvCell {
                                    value: entry.value@,
                                    expires_at: entry.expires_at,
                                };
                                self.entries[i] = entry;
                                proof {
                                    self.lemma_replace_at(pre, i as int, key@, ev);
                                }
                                Ok(n + 1)
                            } else {
                                Err(())
                            }
                        },
                        None => Err(()),
                    }
                }
            },
            None => {
                let entry = KvEntry {
                    key: key.clone(),
                    value: StoredValue::Count(1),
                    expires_at: None,
                };
                let ghost ev = KvCell { value: entry.value@, expires_at: entry.expires_at };
                self.entries.push(entry);
                proof {
                    self.lemma_push_new(pre, key@, ev);
                }
                Ok(1)
            },
        }
    }

    /// EXPIRE: sets the expiry of a live `key` to `now + ttl_seconds`,
    /// reporting whether there was a live key to touch.
    pub fn expire(&mut self, key: &String, ttl_seconds: u64, now: u64) -> (r: bool)
        requires
            old(self).wf(),
            now + ttl_seconds <= u64::MAX,
        ensures
            final(self).wf(),
            if old(self).live_value(key@, now) is Some {
                r == true && final(self).contents() == old(self).contents().insert(
                    key@,
                    KvCell {
                        value: old(self).contents()[key@].value,
                        expires_at: Some((now + ttl_seconds) as u64),
                    },
                )
            } else {
                r == false && final(self).contents() == old(self).contents()
            },
    {
        let ghost pre = *self;
        match self.find_index(key) {
            Some(i) => {
                proof {
                    self.lemma_entry_at(i as int);
                }
                let live = match self.entries[i].expires_at {
                    Some(t) => now < t,
                    None => true,
                };
                if live {
                    let entry = KvEntry {
                        key: key.clone(),
                        value: self.entries[i].value.clone(),
                        expires_at: Some(now + ttl_seconds),
                    };
                    let ghost ev = KvCell { value: entry.value@, expires_at: entry.expires_at };
                    self.entries[i] = entry;
                    proof {
                        self.lemma_replace_at(pre, i as int, key@, ev);
                    }
                    true
                } else {
                    false
                }
            },
            None => false,
        }
    }

    /// Replacing the cell at `i`, whose key is `k`, rewrites the contents
    /// map at `k` alone.
    proof fn lemma_replace_at(self, pre: KvStore, i: int, k: Seq<char>, ev: KvCell)
        requires
            pre.wf(),
            0 <= i < pre.entries@.len(),
            pre.entries@[i].key@ == k,
            self.entries@ == pre.entries@.update(
                i,
                self.entries@[i],
            ),
            self.entries@[i].key@ == k,
            ev == (KvCell { value: self.entries@[i].value@, expires_at: self.entries@[i].expires_at }),
        ensures
            self.wf(),
            self.contents() == pre.contents().insert(k, ev),
    {
        assert forall|a: int, b: int|
            0 <= a < b < self.entries@.len() implies self.entries@[a].key@
            != self.entries@[b].key@ by {
            assert(pre.entries@[a].key@ != pre.entries@[b].key@);
        }
        self.lemma_entry_at(i);
        let target = pre.contents().insert(k, ev);
        assert_maps_equal!(
            self.contents(),
            target,
            k2 => {
                if k2 == k {
                } else {
                    if self.contents().dom().contains(k2) {
                        let j = choose|j: int|
                            0 <= j < self.entries@.len() && self.entries@[j].key@ == k2;
                        self.lemma_entry_at(j);
                        pre.lemma_entry_at(j);
                    }
                    if pre.contents().dom().contains(k2) {
                        let j = choose|j: int|
                            0 <= j < pre.entries@.len() && pre.entries@[j].key@ == k2;
                        pre.lemma_entry_at(j);
                        self.lemma_entry_at(j);
                    }
                }
            }
        );
    }

    /// Appending a cell under a key not yet present extends the contents
    /// map at that key alone.
    proof fn lemma_push_new(self, pre: KvStore, k: Seq<char>, ev: KvCell)
        requires
            pre.wf(),
            !pre.contents().dom().contains(k),
            self.entries@ == pre.entries@.push(self.entries@[pre.entries@.len() as int]),
            self.entries@[pre.entries@.len() as int].key@ == k,
            ev == (KvCell {
                value: self.entries@[pre.entries@.len() as int].value@,
                expires_at: self.entries@[pre.entries@.len() as int].expires_at,
            }),
        ensures
            self.wf(),
            self.contents() == pre.contents().insert(k, ev),
    {
        let n = pre.entries@.len() as int;
        assert forall|a: int, b: int|
            0 <= a < b < self.entries@.len() implies self.entries@[a].key@
            != self.entries@[b].key@ by {
            if b < n {
                assert(pre.entries@[a].key@ != pre.entries@[b].key@);
            } else {
                pre.lemma_entry_at(a);
            }
        }
        self.lemma_entry_at(n);
        let target = pre.contents().insert(k, ev);
        assert_maps_equal!(
            self.contents(),
            target,
            k2 => {
                if k2 == k {
                } else {
                    if self.contents().dom().contains(k2) {
                        let j = choose|j: int|
                            0 <= j < self.entries@.len() && self.entries@[j].key@ == k2;
                        self.lemma_entry_at(j);
                        pre.lemma_entry_at(j);
                    }
                    if pre.contents().dom().contains(k2) {
                        let j = choose|j: int|
                            0 <= j < pre.entries@.len() && pre.entries@[j].key@ == k2;
                        pre.lemma_entry_at(j);
                        self.lemma_entry_at(j);
                    }
                }
            }
        );
    }
}

} // verus!
