//! The temporal state store: a versioned key-value map with append-only
//! per-key histories, tombstones, point-in-time reads, snapshots and
//! copy-on-write forks. Every write takes the next value of one global,
//! strictly increasing version counter.

use vstd::prelude::*;

use crate::clock::now_millis;
use crate::errors::OrpheonError;
use crate::ids::{Id, fresh_id};
use crate::text::{is_prefix, str_starts_with};

verus! {

/// A versioned state entry. Values are JSON text.
#[derive(Debug, Clone)]
pub struct StateEntry {
    /// The key for this entry.
    pub key: String,
    /// The value, as JSON text.
    pub value: String,
    /// Version number (monotonically increasing across the store).
    pub version: u64,
    /// When this version was created (milliseconds since the epoch).
    pub timestamp: i64,
    /// Whether this entry is a tombstone.
    pub deleted: bool,
    /// Metadata about this entry.
    pub metadata: Vec<(String, String)>,
}

/// Mathematical value of a state entry.
#[verifier::ext_equal]
pub struct EntryV {
    /// See [`StateEntry::key`].
    pub key: Seq<char>,
    /// See [`StateEntry::value`].
    pub value: Seq<char>,
    /// See [`StateEntry::version`].
    pub version: u64,
    /// See [`StateEntry::timestamp`].
    pub timestamp: i64,
    /// See [`StateEntry::deleted`].
    pub deleted: bool,
    /// See [`StateEntry::metadata`].
    pub metadata: Seq<(Seq<char>, Seq<char>)>,
}

impl View for StateEntry {
    type V = EntryV;

    open spec fn view(&self) -> EntryV {
        EntryV {
            key: self.key@,
            value: self.value@,
            version: self.version,
            timestamp: self.timestamp,
            deleted: self.deleted,
            metadata: self.metadata.deep_view(),
        }
    }
}

impl DeepView for StateEntry {
    type V = EntryV;

    open spec fn deep_view(&self) -> EntryV {
        self.view()
    }
}

impl StateEntry {
    /// An exact copy of this entry.
    pub fn duplicate(&self) -> (r: Self)
        ensures
            r@ == self@,
    {
        let mut md: Vec<(String, String)> = Vec::new();
        let mut i: usize = 0;
        while i < self.metadata.len()
            invariant
                i <= self.metadata@.len(),
                md@.len() == i,
                forall|j: int| 0 <= j < i
                    ==> #[trigger] md@[j].deep_view() == self.metadata@[j].deep_view(),
            decreases self.metadata@.len() - i,
        {
            let pair = (self.metadata[i].0.clone(), self.metadata[i].1.clone());
            md.push(pair);
            i = i + 1;
        }
        let r = StateEntry {
            key: self.key.clone(),
            value: self.value.clone(),
            version: self.version,
            timestamp: self.timestamp,
            deleted: self.deleted,
            metadata: md,
        };
        proof {
            assert(r@.metadata =~~= self@.metadata);
        }
        r
    }
}

/// The value of one keyed history map: pairs of a key and its entry history
/// in append order.
pub type StoreMapV = Seq<(Seq<char>, Seq<EntryV>)>;

/// The map has the key.
pub open spec fn has_key(m: StoreMapV, key: Seq<char>) -> bool {
    exists|i: int| 0 <= i < m.len() && m[i].0 == key
}

/// The unique slot of a key in a map with distinct keys.
pub open spec fn key_slot(m: StoreMapV, key: Seq<char>) -> int {
    choose|i: int| 0 <= i < m.len() && m[i].0 == key
}

/// The history of a key: its entries in append order, empty when absent.
pub open spec fn versions_of(m: StoreMapV, key: Seq<char>) -> Seq<EntryV> {
    if has_key(m, key) {
        m[key_slot(m, key)].1
    } else {
        Seq::empty()
    }
}

/// The latest entry of a key, tombstone or not.
pub open spec fn latest_of(m: StoreMapV, key: Seq<char>) -> Option<EntryV> {
    if versions_of(m, key).len() > 0 {
        Option::Some(versions_of(m, key).last())
    } else {
        Option::None
    }
}

/// The live entry of a key: its latest entry unless that is a tombstone.
pub open spec fn live_of(m: StoreMapV, key: Seq<char>) -> Option<EntryV> {
    match latest_of(m, key) {
        Option::Some(e) => if e.deleted {
            Option::None
        } else {
            Option::Some(e)
        },
        Option::None => Option::None,
    }
}

/// The latest entry in a history whose timestamp is at or before the given
/// instant and which is not a tombstone.
pub open spec fn entry_at(vs: Seq<EntryV>, ts: i64) -> Option<EntryV>
    decreases vs.len(),
{
    if vs.len() == 0 {
        Option::None
    } else if vs.last().timestamp <= ts && !vs.last().deleted {
        Option::Some(vs.last())
    } else {
        entry_at(vs.drop_last(), ts)
    }
}

/// One key's history is well-formed: every entry carries the key, versions
/// are positive, and versions strictly increase along the history.
pub open spec fn history_wf(key: Seq<char>, vs: Seq<EntryV>, global: u64) -> bool {
    &&& forall|i: int| 0 <= i < vs.len() ==> (#[trigger] vs[i]).key == key
    &&& forall|i: int| 0 <= i < vs.len() ==> 1 <= (#[trigger] vs[i]).version <= global
    &&& forall|i: int, j: int| 0 <= i < j < vs.len()
        ==> (#[trigger] vs[i]).version < (#[trigger] vs[j]).version
}

/// A keyed history map is well-formed against a global version: keys are
/// distinct and every history is well-formed.
pub open spec fn map_wf(m: StoreMapV, global: u64) -> bool {
    &&& forall|i: int, j: int| 0 <= i < j < m.len()
        ==> (#[trigger] m[i]).0 != (#[trigger] m[j]).0
    &&& forall|i: int| 0 <= i < m.len()
        ==> history_wf((#[trigger] m[i]).0, m[i].1, global)
}

/// The map after appending an entry to a key's history (the key is added at
/// the end when new).
pub open spec fn map_after_append(m: StoreMapV, key: Seq<char>, e: EntryV) -> StoreMapV {
    if has_key(m, key) {
        let i = key_slot(m, key);
        m.update(i, (key, m[i].1.push(e)))
    } else {
        m.push((key, seq![e]))
    }
}

/// Mathematical value of the store.
#[verifier::ext_equal]
pub struct StoreV {
    /// The main keyed history map.
    pub entries: StoreMapV,
    /// The forks: fork id and the map copied at fork time, in creation order.
    pub forks: Seq<(Id, StoreMapV)>,
    /// The global version counter.
    pub version: u64,
}

/// In-memory temporal state store.
#[derive(Debug)]
pub struct InMemoryStateStore {
    /// Main state storage: per key, the append-only list of its versions.
    pub entries: Vec<(String, Vec<StateEntry>)>,
    /// Forks: fork id and the state copied when the fork was made.
    pub forks: Vec<(Id, Vec<(String, Vec<StateEntry>)>)>,
    /// Global version counter.
    pub version: u64,
}

impl View for InMemoryStateStore {
    type V = StoreV;

    open spec fn view(&self) -> StoreV {
        StoreV {
            entries: self.entries.deep_view(),
            forks: self.forks.deep_view(),
            version: self.version,
        }
    }
}

impl InMemoryStateStore {
    /// The store's invariant: the main map and every fork's map are
    /// well-formed against the global version counter.
    pub open spec fn wf(self) -> bool {
        &&& map_wf(self@.entries, self@.version)
        &&& forall|f: int| 0 <= f < self@.forks.len()
            ==> map_wf((#[trigger] self@.forks[f]).1, self@.version)
    }

    /// A new, empty store at version zero.
    pub fn new() -> (r: Self)
        ensures
            r@.entries == Seq::<(Seq<char>, Seq<EntryV>)>::empty(),
            r@.forks == Seq::<(Id, StoreMapV)>::empty(),
            r@.version == 0u64,
            r.wf(),
    {
        let r = InMemoryStateStore {
            entries: Vec::new(),
            forks: Vec::new(),
            version: 0,
        };
        proof {
            assert(r@.entries =~~= Seq::<(Seq<char>, Seq<EntryV>)>::empty());
            assert(r@.forks =~~= Seq::<(Id, StoreMapV)>::empty());
        }
        r
    }

    /// The current version of the store.
    pub fn version(&self) -> (r: u64)
        ensures
            r == self@.version,
    {
        self.version
    }

    /// The slot of a key in the main map.
    fn find_slot(&self, key: &String) -> (r: Option<usize>)
        requires
            self.wf(),
        ensures
            r matches Some(i) ==> i < self@.entries.len()
                && self@.entries[i as int].0 == key@
                && has_key(self@.entries, key@)
                && versions_of(self@.entries, key@) == self@.entries[i as int].1,
            r is None ==> !has_key(self@.entries, key@),
    {
        let ghost m = self@.entries;
        let mut i: usize = 0;
        while i < self.entries.len()
            invariant
                i <= self.entries@.len(),
                self.wf(),
                m == self@.entries,
                m.len() == self.entries@.len(),
                forall|j: int| 0 <= j < i ==> (#[trigger] m[j]).0 != key@,
            decreases self.entries@.len() - i,
        {
            if self.entries[i].0 == *key {
                proof {
                    assert(m[i as int].0 == key@);
                    assert(has_key(m, key@));
                    let s = key_slot(m, key@);
                    assert(m[s].0 == key@);
                    if s != i {
                        assert(self.wf());
                        assert(false);
                    }
                }
                return Some(i);
            }
            i = i + 1;
        }
        proof {
            if has_key(m, key@) {
                let s = key_slot(m, key@);
                assert(m[s].0 == key@);
                assert(false);
            }
        }
        None
    }

    /// Get the current value for a key: the latest entry, unless it is a
    /// tombstone.
    pub fn get(&self, key: &str) -> (r: Result<Option<StateEntry>, OrpheonError>)
        requires
            self.wf(),
        ensures
            r matches Ok(o) && match live_of(self@.entries, key@) {
                Option::Some(e) => o matches Some(x) && x@ == e,
                Option::None => o is None,
            },
    {
        let key_s = key.to_owned();
        match self.find_slot(&key_s) {
            Some(i) => {
                let versions = &self.entries[i].1;
                if versions.len() > 0 {
                    let last = &versions[versions.len() - 1];
                    if last.deleted {
                        Ok(None)
                    } else {
                        Ok(Some(last.duplicate()))
                    }
                } else {
                    Ok(None)
                }
            }
            None => Ok(None),
        }
    }

    /// Append a new entry for a key at the given instant: the entry takes the
    /// next value of the global version counter, which this bumps.
    pub fn set_at(&mut self, key: &str, value: String, now_ms: i64) -> (r: Result<
        StateEntry,
        OrpheonError,
    >)
        requires
            old(self).wf(),
            old(self)@.version < u64::MAX,
        ensures
            final(self).wf(),
            final(self)@.version == old(self)@.version + 1,
            final(self)@.forks == old(self)@.forks,
            r matches Ok(e) && e@ == (EntryV {
                key: key@,
                value: value@,
                version: (old(self)@.version + 1) as u64,
                timestamp: now_ms,
                deleted: false,
                metadata: Seq::empty(),
            }),
            final(self)@.entries == map_after_append(
                old(self)@.entries,
                key@,
                (EntryV {
                    key: key@,
                    value: value@,
                    version: (old(self)@.version + 1) as u64,
                    timestamp: now_ms,
                    deleted: false,
                    metadata: Seq::empty(),
                }),
            ),
    {
        self.append_entry(key, value, now_ms, false)
    }

    /// Set a value for a key now.
    pub fn set(&mut self, key: &str, value: String) -> (r: Result<StateEntry, OrpheonError>)
        requires
            old(self).wf(),
            old(self)@.version < u64::MAX,
        ensures
            final(self).wf(),
            final(self)@.version == old(self)@.version + 1,
            final(self)@.forks == old(self)@.forks,
            r matches Ok(e) && e@.key == key@ && e@.value == value@ && !e@.deleted
                && e@.version == old(self)@.version + 1,
            final(self)@.entries == map_after_append(old(self)@.entries, key@, r->Ok_0@),
    {
        let now = now_millis();
        self.set_at(key, value, now)
    }

    /// Append a tombstone for a key at the given instant.
    pub fn delete_at(&mut self, key: &str, now_ms: i64) -> (r: Result<(), OrpheonError>)
        requires
            old(self).wf(),
            old(self)@.version < u64::MAX,
        ensures
            final(self).wf(),
            final(self)@.version == old(self)@.version + 1,
            final(self)@.forks == old(self)@.forks,
            r is Ok,
            final(self)@.entries == map_after_append(
                old(self)@.entries,
                key@,
                (EntryV {
                    key: key@,
                    value: "null"@,
                    version: (old(self)@.version + 1) as u64,
                    timestamp: now_ms,
                    deleted: true,
                    metadata: Seq::empty(),
                }),
            ),
    {
        let tomb = self.append_tombstone(key, now_ms);
        match tomb {
            Ok(_) => Ok(()),
            Err(e) => Err(e),
        }
    }

    /// Delete a key now (appends a tombstone).
    pub fn delete(&mut self, key: &str) -> (r: Result<(), OrpheonError>)
        requires
            old(self).wf(),
            old(self)@.version < u64::MAX,
        ensures
            final(self).wf(),
            final(self)@.version == old(self)@.version + 1,
            final(self)@.forks == old(self)@.forks,
            r is Ok,
            live_of(final(self)@.entries, key@) is None,
            forall|k: Seq<char>| k != key@ ==> versions_of(final(self)@.entries, k)
                == versions_of(old(self)@.entries, k),
    {
        let now = now_millis();
        let r = self.delete_at(key, now);
        proof {
            lemma_append_versions(old(self)@.entries, key@, (EntryV {
                key: key@,
                value: "null"@,
                version: (old(self)@.version + 1) as u64,
                timestamp: now,
                deleted: true,
                metadata: Seq::empty(),
            }), old(self)@.version);
        }
        r
    }

    fn append_entry(&mut self, key: &str, value: String, now_ms: i64, deleted: bool) -> (r: Result<
        StateEntry,
        OrpheonError,
    >)
        requires
            old(self).wf(),
            old(self)@.version < u64::MAX,
            !deleted,
        ensures
            final(self).wf(),
            final(self)@.version == old(self)@.version + 1,
            final(self)@.forks == old(self)@.forks,
            r matches Ok(e) && e@ == (EntryV {
                key: key@,
                value: value@,
                version: (old(self)@.version + 1) as u64,
                timestamp: now_ms,
                deleted: false,
                metadata: Seq::empty(),
            }),
            final(self)@.entries == map_after_append(old(self)@.entries, key@, r->Ok_0@),
    {
        let version = self.version + 1;
        self.version = version;
        let entry = StateEntry {
            key: key.to_owned(),
            value,
            version,
            timestamp: now_ms,
            deleted: false,
            metadata: Vec::new(),
        };
        let dup = entry.duplicate();
        proof {
            assert(entry@.metadata =~= Seq::<(Seq<char>, Seq<char>)>::empty());
            assert(self@.forks == old(self)@.forks);
            assert forall|f: int| 0 <= f < self@.forks.len()
                implies map_wf((#[trigger] self@.forks[f]).1, (self@.version - 1) as u64) by {
                assert(map_wf((old(self)@.forks[f]).1, old(self)@.version));
            }
        }
        self.push_into_map(entry);
        Ok(dup)
    }

    fn append_tombstone(&mut self, key: &str, now_ms: i64) -> (r: Result<
        StateEntry,
        OrpheonError,
    >)
        requires
            old(self).wf(),
            old(self)@.version < u64::MAX,
        ensures
            final(self).wf(),
            final(self)@.version == old(self)@.version + 1,
            final(self)@.forks == old(self)@.forks,
            r matches Ok(e) && e@ == (EntryV {
                key: key@,
                value: "null"@,
                version: (old(self)@.version + 1) as u64,
                timestamp: now_ms,
                deleted: true,
                metadata: Seq::empty(),
            }),
            final(self)@.entries == map_after_append(old(self)@.entries, key@, r->Ok_0@),
    {
        let version = self.version + 1;
        self.version = version;
        let entry = StateEntry {
            key: key.to_owned(),
            value: String::from_str("null"),
            version,
            timestamp: now_ms,
            deleted: true,
            metadata: Vec::new(),
        };
        let dup = entry.duplicate();
        proof {
            assert(entry@.metadata =~= Seq::<(Seq<char>, Seq<char>)>::empty());
            assert(self@.forks == old(self)@.forks);
            assert forall|f: int| 0 <= f < self@.forks.len()
                implies map_wf((#[trigger] self@.forks[f]).1, (self@.version - 1) as u64) by {
                assert(map_wf((old(self)@.forks[f]).1, old(self)@.version));
            }
        }
        self.push_into_map(entry);
        Ok(dup)
    }

    /// Push a freshly versioned entry into the main map; the version counter
    /// has already been bumped to the entry's version.
    fn push_into_map(&mut self, entry: StateEntry)
        requires
            map_wf(old(self)@.entries, (old(self)@.version - 1) as u64),
            forall|f: int| 0 <= f < old(self)@.forks.len()
                ==> map_wf((#[trigger] old(self)@.forks[f]).1, (old(self)@.version - 1) as u64),
            old(self)@.version >= 1,
            entry@.version == old(self)@.version,
        ensures
            final(self).wf(),
            final(self)@.version == old(self)@.version,
            final(self)@.forks == old(self)@.forks,
            final(self)@.entries == map_after_append(old(self)@.entries, entry@.key, entry@),
    {
        let ghost m = self@.entries;
        let ghost ev = entry@;
        let ghost global = self@.version;
        proof {
            lemma_map_wf_weaken(m, (global - 1) as u64, global);
            assert forall|f: int| 0 <= f < self@.forks.len()
                implies map_wf((#[trigger] self@.forks[f]).1, global) by {
                lemma_map_wf_weaken(self@.forks[f].1, (global - 1) as u64, global);
            }
        }
        let key_s = entry.key.clone();
        match self.find_slot(&key_s) {
            Some(i) => {
                let ghost pre = self@.entries;
                let slot = &mut self.entries[i];
                slot.1.push(entry);
                proof {
                    assert(self@.entries.len() == pre.len());
                    assert(forall|j: int| 0 <= j < pre.len() && j != i
                        ==> self@.entries[j] == pre[j]);
                    assert(self@.entries[i as int].0 == pre[i as int].0);
                    assert(self@.entries[i as int].1 =~= pre[i as int].1.push(ev));
                    assert(self@.entries =~~= map_after_append(pre, ev.key, ev));
                    assert forall|a: int| 0 <= a < self@.entries.len()
                        implies history_wf(
                            (#[trigger] self@.entries[a]).0,
                            self@.entries[a].1,
                            global,
                        ) by {
                        assert(history_wf(pre[a].0, pre[a].1, (global - 1) as u64));
                        lemma_history_wf_weaken(pre[a].0, pre[a].1, (global - 1) as u64, global);
                        if a == i {
                            let vs = self@.entries[a].1;
                            assert forall|x: int| 0 <= x < vs.len()
                                implies (#[trigger] vs[x]).key == self@.entries[a].0 by {
                                if x < vs.len() - 1 {
                                    assert(pre[a].1[x].key == pre[a].0);
                                }
                            }
                            assert forall|x: int| 0 <= x < vs.len()
                                implies 1 <= (#[trigger] vs[x]).version <= global by {
                                if x < vs.len() - 1 {
                                    assert(1 <= pre[a].1[x].version <= (global - 1) as u64);
                                }
                            }
                            assert forall|x: int, y: int| 0 <= x < y < vs.len()
                                implies (#[trigger] vs[x]).version
                                    < (#[trigger] vs[y]).version by {
                                if y < vs.len() - 1 {
                                    assert(pre[a].1[x].version < pre[a].1[y].version);
                                } else {
                                    assert(vs[x].version <= (global - 1) as u64);
                                }
                            }
                        }
                    }
                    assert forall|a: int, b: int| 0 <= a < b < self@.entries.len()
                        implies (#[trigger] self@.entries[a]).0
                            != (#[trigger] self@.entries[b]).0 by {
                        assert(pre[a].0 != pre[b].0);
                        assert(self@.entries[a].0 == pre[a].0);
                        assert(self@.entries[b].0 == pre[b].0);
                    }
                    assert(self@.forks == old(self)@.forks);
                    assert forall|f: int| 0 <= f < self@.forks.len()
                        implies map_wf((#[trigger] self@.forks[f]).1, global) by {
                        lemma_map_wf_weaken(
                            old(self)@.forks[f].1,
                            (global - 1) as u64,
                            global,
                        );
                    }
                }
            }
            None => {
                let ghost pre = self@.entries;
                let mut vs: Vec<StateEntry> = Vec::new();
                vs.push(entry);
                self.entries.push((key_s, vs));
                proof {
                    assert(self@.entries.len() == pre.len() + 1);
                    assert(forall|j: int| 0 <= j < pre.len()
                        ==> #[trigger] self@.entries[j] == pre[j]);
                    assert(self@.entries[pre.len() as int].0 == ev.key);
                    assert(self@.entries[pre.len() as int].1 =~= seq![ev]);
                    assert(self@.entries =~~= map_after_append(pre, ev.key, ev));
                    assert forall|a: int| 0 <= a < self@.entries.len()
                        implies history_wf(
                            (#[trigger] self@.entries[a]).0,
                            self@.entries[a].1,
                            global,
                        ) by {
                        if a < pre.len() {
                            lemma_history_wf_weaken(pre[a].0, pre[a].1, (global - 1) as u64, global);
                        }
                    }
                    assert forall|a: int, b: int| 0 <= a < b < self@.entries.len()
                        implies (#[trigger] self@.entries[a]).0
                            != (#[trigger] self@.entries[b]).0 by {
                        if b == pre.len() {
                            assert(!has_key(pre, ev.key));
                            assert(self@.entries[a] == pre[a]);
                        }
                    }
                    assert(self@.forks == old(self)@.forks);
                    assert forall|f: int| 0 <= f < self@.forks.len()
                        implies map_wf((#[trigger] self@.forks[f]).1, global) by {
                        lemma_map_wf_weaken(
                            old(self)@.forks[f].1,
                            (global - 1) as u64,
                            global,
                        );
                    }
                }
            }
        }
    }

    /// Get the value of a key at a specific point in time: the latest entry
    /// at or before the instant that is not a tombstone.
    pub fn get_at(&self, key: &str, timestamp: i64) -> (r: Result<
        Option<StateEntry>,
        OrpheonError,
    >)
        requires
            self.wf(),
        ensures
            r matches Ok(o) && match entry_at(versions_of(self@.entries, key@), timestamp) {
                Option::Some(e) => o matches Some(x) && x@ == e,
                Option::None => o is None,
            },
    {
        let key_s = key.to_owned();
        match self.find_slot(&key_s) {
            Some(i) => {
                let versions = &self.entries[i].1;
                let ghost vs = versions.deep_view();
                let mut k = versions.len();
                proof {
                    assert(vs.subrange(0, k as int) =~= vs);
                }
                while k > 0
                    invariant
                        k <= versions@.len(),
                        vs == versions.deep_view(),
                        vs.len() == versions@.len(),
                        vs == versions_of(self@.entries, key@),
                        entry_at(vs, timestamp) == entry_at(vs.subrange(0, k as int), timestamp),
                    decreases k,
                {
                    k = k - 1;
                    let e = &versions[k];
                    proof {
                        assert(vs.subrange(0, k + 1).last() == vs[k as int]);
                        assert(vs.subrange(0, k + 1).drop_last() =~= vs.subrange(0, k as int));
                    }
                    if e.timestamp <= timestamp && !e.deleted {
                        return Ok(Some(e.duplicate()));
                    }
                }
                proof {
                    assert(vs.subrange(0, 0).len() == 0);
                }
                Ok(None)
            }
            None => Ok(None),
        }
    }

    /// The latest non-tombstone entry of a history slot, if any.
    fn find_last_live(versions: &Vec<StateEntry>) -> (r: Option<StateEntry>)
        ensures
            match last_live(versions.deep_view()) {
                Option::Some(e) => r matches Some(x) && x@ == e,
                Option::None => r is None,
            },
    {
        let ghost vs = versions.deep_view();
        let mut k = versions.len();
        proof {
            assert(vs.subrange(0, k as int) =~= vs);
        }
        while k > 0
            invariant
                k <= versions@.len(),
                vs == versions.deep_view(),
                vs.len() == versions@.len(),
                last_live(vs) == last_live(vs.subrange(0, k as int)),
            decreases k,
        {
            k = k - 1;
            proof {
                assert(vs.subrange(0, k + 1).last() == vs[k as int]);
                assert(vs.subrange(0, k + 1).drop_last() =~= vs.subrange(0, k as int));
            }
            if !versions[k].deleted {
                return Some(versions[k].duplicate());
            }
        }
        proof {
            assert(vs.subrange(0, 0).len() == 0);
        }
        None
    }

    /// All entries under a key prefix: for each matching key, its latest
    /// non-tombstone entry, in the map's key order.
    pub fn get_prefix(&self, prefix: &str) -> (r: Result<Vec<StateEntry>, OrpheonError>)
        requires
            self.wf(),
        ensures
            r matches Ok(out) && out.deep_view() == prefix_live(self@.entries, prefix@),
    {
        let ghost m = self@.entries;
        let mut out: Vec<StateEntry> = Vec::new();
        let mut i: usize = 0;
        proof {
            assert(out.deep_view() =~~= prefix_live(m.subrange(0, 0), prefix@));
        }
        while i < self.entries.len()
            invariant
                i <= self.entries@.len(),
                m == self@.entries,
                m.len() == self.entries@.len(),
                out.deep_view() == prefix_live(m.subrange(0, i as int), prefix@),
            decreases self.entries@.len() - i,
        {
            let ghost pre_out = out.deep_view();
            proof {
                assert(m.subrange(0, i + 1).last() == m[i as int]);
                assert(m.subrange(0, i + 1).drop_last() =~= m.subrange(0, i as int));
            }
            if str_starts_with(self.entries[i].0.as_str(), prefix) {
                match Self::find_last_live(&self.entries[i].1) {
                    Some(e) => {
                        let ghost ev = e@;
                        out.push(e);
                        proof {
                            assert(out.deep_view() =~~= pre_out.push(ev));
                            assert(out.deep_view()
                                =~~= prefix_live(m.subrange(0, i + 1), prefix@));
                        }
                    }
                    None => {
                        proof {
                            assert(out.deep_view()
                                =~~= prefix_live(m.subrange(0, i + 1), prefix@));
                        }
                    }
                }
            } else {
                proof {
                    assert(out.deep_view() =~~= prefix_live(m.subrange(0, i + 1), prefix@));
                }
            }
            i = i + 1;
        }
        proof {
            assert(m.subrange(0, m.len() as int) =~= m);
        }
        Ok(out)
    }

    /// All keys in the store, in insertion order.
    pub fn keys(&self) -> (r: Result<Vec<String>, OrpheonError>)
        ensures
            r matches Ok(ks) && ks.deep_view() == Seq::new(
                self@.entries.len(),
                |i: int| self@.entries[i].0,
            ),
    {
        let mut out: Vec<String> = Vec::new();
        let mut i: usize = 0;
        while i < self.entries.len()
            invariant
                i <= self.entries@.len(),
                out@.len() == i,
                forall|j: int| 0 <= j < i
                    ==> #[trigger] out@[j]@ == self@.entries[j].0,
            decreases self.entries@.len() - i,
        {
            out.push(self.entries[i].0.clone());
            i = i + 1;
        }
        proof {
            assert(out.deep_view() =~~= Seq::new(
                self@.entries.len(),
                |i: int| self@.entries[i].0,
            ));
        }
        Ok(out)
    }

    /// Create a fork: a deep copy of the current state under a fresh fork id.
    /// Forks are isolated: later writes to the main state do not touch them.
    pub fn fork(&mut self, _name: &str) -> (r: Result<Id, OrpheonError>)
        requires
            old(self).wf(),
        ensures
            final(self).wf(),
            r matches Ok(fid) && final(self)@.forks
                == old(self)@.forks.push((fid, old(self)@.entries)),
            final(self)@.entries == old(self)@.entries,
            final(self)@.version == old(self)@.version,
    {
        let fork_id = fresh_id();
        let copy = duplicate_map(&self.entries);
        let ghost pre_forks = self@.forks;
        self.forks.push((fork_id, copy));
        proof {
            assert(self@.forks =~~= pre_forks.push((fork_id, old(self)@.entries)));
            assert forall|f: int| 0 <= f < self@.forks.len()
                implies map_wf((#[trigger] self@.forks[f]).1, self@.version) by {
                if f < pre_forks.len() {
                    assert(self@.forks[f] == pre_forks[f]);
                } else {
                    assert(self@.forks[f].1 == old(self)@.entries);
                }
            }
        }
        Ok(fork_id)
    }

    /// Merge a fork back into the main state: for each key of the fork, the
    /// fork entries whose version exceeds the main history's current tail are
    /// appended; an unknown fork id is a state error and changes nothing.
    #[verifier::rlimit(60)]
    pub fn merge_fork(&mut self, fork_id: Id) -> (r: Result<(), OrpheonError>)
        requires
            old(self).wf(),
        ensures
            final(self).wf(),
            final(self)@.version == old(self)@.version,
            ({
                let fks = old(self)@.forks;
                if has_fork(fks, fork_id) {
                    let f = fork_slot(fks, fork_id);
                    &&& r is Ok
                    &&& final(self)@.entries == merge_all(old(self)@.entries, fks[f].1)
                    &&& final(self)@.forks == fks.remove(f)
                } else {
                    &&& (r matches Err(e) && e matches OrpheonError::StateError { .. })
                    &&& final(self)@.entries == old(self)@.entries
                    &&& final(self)@.forks == old(self)@.forks
                }
            }),
    {
        let ghost fks = self@.forks;
        let found = self.find_fork(fork_id);

        match found {
            None => {
                proof {
                    assert(fks == old(self)@.forks);
                    lemma_fork_slot(fks, fork_id);
                    if has_fork(fks, fork_id) {
                        let f = fork_slot(fks, fork_id);
                        assert(fks[f].0 == fork_id);
                        assert(self@.forks[f].0 != fork_id);
                        assert(false);
                    }
                }
                Err(OrpheonError::StateError {
                    message: String::from_str("Fork not found"),
                })
            }
            Some(idx) => {
                proof {
                    assert(fks[idx as int].0 == fork_id);
                    lemma_fork_slot(fks, fork_id);
                    assert(has_fork(fks, fork_id));
                    let fs = fork_slot(fks, fork_id);
                    if fs < idx {
                        assert(fks[fs].0 == fork_id);
                        assert(false);
                    }
                    if fs > idx {
                        assert(fks[idx as int].0 != fork_id);
                        assert(false);
                    }
                    assert(fs == idx as int);
                }
                let ghost pre_forks = self@.forks;
                let fk = self.forks.remove(idx);
                let ghost fkv = fk.1.deep_view();
                proof {
                    assert(fkv == fks[idx as int].1);
                    assert(map_wf(fkv, self@.version));
                    assert forall|f: int| 0 <= f < self@.forks.len()
                        implies map_wf((#[trigger] self@.forks[f]).1, self@.version) by {
                        if f < idx {
                            assert(self@.forks[f] == pre_forks[f]);
                        } else {
                            assert(self@.forks[f] == pre_forks[f + 1]);
                        }
                    }
                    assert(self@.forks =~~= fks.remove(idx as int));
                }

                let ghost start = self@.entries;
                let mut k: usize = 0;
                proof {
                    assert(fkv.subrange(0, 0).len() == 0);
                    assert(merge_all(start, fkv.subrange(0, 0)) == start);
                }
                while k < fk.1.len()
                    invariant
                        k <= fk.1@.len(),
                        fkv == fk.1.deep_view(),
                        fkv.len() == fk.1@.len(),
                        map_wf(fkv, self@.version),
                        self@.entries == merge_all(start, fkv.subrange(0, k as int)),
                        map_wf(self@.entries, self@.version),
                        self@.forks == fks.remove(idx as int),
                        self@.version == old(self)@.version,
                        forall|f: int| 0 <= f < self@.forks.len()
                            ==> map_wf((#[trigger] self@.forks[f]).1, self@.version),
                    decreases fk.1@.len() - k,
                {
                    proof {
                        assert(fkv.subrange(0, k + 1).last() == fkv[k as int]);
                        assert(fkv.subrange(0, k + 1).drop_last() =~= fkv.subrange(0, k as int));
                        assert(history_wf(fkv[k as int].0, fkv[k as int].1, self@.version));
                    }
                    self.merge_one_key(&fk.1[k].0, &fk.1[k].1);
                    k = k + 1;
                }
                proof {
                    assert(fkv.subrange(0, fkv.len() as int) =~= fkv);
                }
                Ok(())
            }
        }
    }

    /// A snapshot of the current state: for each key, in key order, its
    /// latest non-tombstone entry, together with the current version and the
    /// present time.
    pub fn snapshot(&self) -> (r: Result<crate::temporal::StateSnapshot, OrpheonError>)
        requires
            self.wf(),
        ensures
            r matches Ok(s) && s.spec_entries() == live_pairs(self@.entries)
                && s.version == self@.version,
    {
        let ghost m = self@.entries;
        let mut out: Vec<(String, StateEntry)> = Vec::new();
        let mut i: usize = 0;
        proof {
            assert(out.deep_view() =~~= live_pairs(m.subrange(0, 0)));
        }
        while i < self.entries.len()
            invariant
                i <= self.entries@.len(),
                m == self@.entries,
                m.len() == self.entries@.len(),
                out.deep_view() == live_pairs(m.subrange(0, i as int)),
            decreases self.entries@.len() - i,
        {
            let ghost pre_out = out.deep_view();
            proof {
                assert(m.subrange(0, i + 1).last() == m[i as int]);
                assert(m.subrange(0, i + 1).drop_last() =~= m.subrange(0, i as int));
            }
            match Self::find_last_live(&self.entries[i].1) {
                Some(e) => {
                    let ghost ev = e@;
                    let pair = (self.entries[i].0.clone(), e);
                    out.push(pair);
                    proof {
                        assert(out.deep_view() =~~= pre_out.push((m[i as int].0, ev)));
                        assert(out.deep_view() =~~= live_pairs(m.subrange(0, i + 1)));
                    }
                }
                None => {
                    proof {
                        assert(out.deep_view() =~~= live_pairs(m.subrange(0, i + 1)));
                    }
                }
            }
            i = i + 1;
        }
        proof {
            assert(m.subrange(0, m.len() as int) =~= m);
        }
        Ok(crate::temporal::StateSnapshot {
            id: fresh_id(),
            version: self.version,
            timestamp: now_millis(),
            entries: out,
        })
    }

    /// The slot of a fork id in the fork table.
    fn find_fork(&self, fork_id: Id) -> (r: Option<usize>)
        ensures
            r matches Some(i) ==> i < self@.forks.len()
                && self@.forks[i as int].0 == fork_id
                && (forall|j: int| 0 <= j < i
                    ==> (#[trigger] self@.forks[j]).0 != fork_id),
            r is None ==> forall|j: int| 0 <= j < self@.forks.len()
                ==> (#[trigger] self@.forks[j]).0 != fork_id,
    {
        let ghost fks = self@.forks;
        let mut fi: usize = 0;
        while fi < self.forks.len()
            invariant
                fi <= self.forks@.len(),
                fks == self@.forks,
                fks.len() == self.forks@.len(),
                forall|j: int| 0 <= j < fi ==> (#[trigger] fks[j]).0 != fork_id,
            decreases self.forks@.len() - fi,
        {
            if self.forks[fi].0 == fork_id {
                return Some(fi);
            }
            fi = fi + 1;
        }
        None
    }

    /// Merge one key of a fork into the main map.
    fn merge_one_key(&mut self, key: &String, fvs: &Vec<StateEntry>)
        requires
            map_wf(old(self)@.entries, old(self)@.version),
            history_wf(key@, fvs.deep_view(), old(self)@.version),
        ensures
            final(self)@.entries == merge_into(old(self)@.entries, key@, fvs.deep_view()),
            map_wf(final(self)@.entries, final(self)@.version),
            final(self)@.forks == old(self)@.forks,
            final(self)@.version == old(self)@.version,
    {
        let ghost m = self@.entries;
        let ghost fv = fvs.deep_view();
        let ghost global = self@.version;
        match self.find_slot_main(key) {
            Some(i) => {
                let last_v: u64 = if self.entries[i].1.len() > 0 {
                    let n = self.entries[i].1.len();
                    self.entries[i].1[n - 1].version
                } else {
                    0
                };
                proof {
                    assert(last_v == last_version(m[i as int].1));
                }
                let ghost base = m[i as int].1;
                let mut e: usize = 0;
                proof {
                    assert(fv.subrange(0, 0).len() == 0);
                    assert(base + newer_than(fv.subrange(0, 0), last_v) =~= base);
                }
                while e < fvs.len()
                    invariant
                        e <= fvs@.len(),
                        fv == fvs.deep_view(),
                        fv.len() == fvs@.len(),
                        i < self.entries@.len(),
                        self@.entries.len() == m.len(),
                        forall|j: int| 0 <= j < m.len() && j != i
                            ==> #[trigger] self@.entries[j] == m[j],
                        self@.entries[i as int].0 == m[i as int].0,
                        self@.entries[i as int].1 == base + newer_than(
                            fv.subrange(0, e as int),
                            last_v,
                        ),
                        self@.forks == old(self)@.forks,
                        self@.version == old(self)@.version,
                    decreases fvs@.len() - e,
                {
                    proof {
                        assert(fv.subrange(0, e + 1).last() == fv[e as int]);
                        assert(fv.subrange(0, e + 1).drop_last() =~= fv.subrange(0, e as int));
                    }
                    if fvs[e].version > last_v {
                        let ghost pre = self@.entries;
                        let dup = fvs[e].duplicate();
                        let slot = &mut self.entries[i];
                        slot.1.push(dup);
                        proof {
                            assert(forall|j: int| 0 <= j < m.len() && j != i
                                ==> #[trigger] self@.entries[j] == pre[j]);
                            assert(self@.entries[i as int].1
                                =~= pre[i as int].1.push(fv[e as int]));
                            assert(self@.entries[i as int].1 =~= base + newer_than(
                                fv.subrange(0, e + 1),
                                last_v,
                            ));
                        }
                    }
                    e = e + 1;
                }
                proof {
                    assert(fv.subrange(0, fv.len() as int) =~= fv);
                    assert(self@.entries =~~= merge_into(m, key@, fv));
                    lemma_merge_slot_wf(m, i as int, fv, global);
                }
            }
            None => {
                let mut vs: Vec<StateEntry> = Vec::new();
                let mut e: usize = 0;
                proof {
                    assert(fv.subrange(0, 0).len() == 0);
                    assert(vs.deep_view() =~~= newer_than(fv.subrange(0, 0), 0u64));
                }
                while e < fvs.len()
                    invariant
                        e <= fvs@.len(),
                        fv == fvs.deep_view(),
                        fv.len() == fvs@.len(),
                        vs.deep_view() == newer_than(fv.subrange(0, e as int), 0u64),
                    decreases fvs@.len() - e,
                {
                    proof {
                        assert(fv.subrange(0, e + 1).last() == fv[e as int]);
                        assert(fv.subrange(0, e + 1).drop_last() =~= fv.subrange(0, e as int));
                    }
                    if fvs[e].version > 0 {
                        let ghost pre = vs.deep_view();
                        vs.push(fvs[e].duplicate());
                        proof {
                            assert(vs.deep_view() =~~= pre.push(fv[e as int]));
                        }
                    }
                    e = e + 1;
                }
                proof {
                    assert(fv.subrange(0, fv.len() as int) =~= fv);
                }
                let ghost pre_m = self@.entries;
                self.entries.push((key.clone(), vs));
                proof {
                    assert(self@.entries =~~= pre_m.push((key@, newer_than(fv, 0u64))));
                    assert(self@.entries =~~= merge_into(m, key@, fv));
                    lemma_merge_push_wf(m, key@, fv, global);
                }
            }
        }
    }

    /// The slot of a key in the main map, requiring only the main map's
    /// well-formedness.
    fn find_slot_main(&self, key: &String) -> (r: Option<usize>)
        requires
            map_wf(self@.entries, self@.version),
        ensures
            r matches Some(i) ==> i < self@.entries.len()
                && self@.entries[i as int].0 == key@
                && has_key(self@.entries, key@)
                && key_slot(self@.entries, key@) == i as int,
            r is None ==> !has_key(self@.entries, key@),
    {
        let ghost m = self@.entries;
        let mut i: usize = 0;
        while i < self.entries.len()
            invariant
                i <= self.entries@.len(),
                map_wf(self@.entries, self@.version),
                m == self@.entries,
                m.len() == self.entries@.len(),
                forall|j: int| 0 <= j < i ==> (#[trigger] m[j]).0 != key@,
            decreases self.entries@.len() - i,
        {
            if self.entries[i].0 == *key {
                proof {
                    assert(m[i as int].0 == key@);
                    assert(has_key(m, key@));
                    let s = key_slot(m, key@);
                    assert(m[s].0 == key@);
                    if s != i {
                        assert(false);
                    }
                }
                return Some(i);
            }
            i = i + 1;
        }
        proof {
            if has_key(m, key@) {
                let s = key_slot(m, key@);
                assert(m[s].0 == key@);
                assert(false);
            }
        }
        None
    }
}

/// Every entry selected by `newer_than` keeps the history's key, stays within
/// the global bound, exceeds the version bound, and the selection is strictly
/// increasing in version.
pub proof fn lemma_newer_than_wf(key: Seq<char>, vs: Seq<EntryV>, v: u64, global: u64)
    requires
        history_wf(key, vs, global),
    ensures
        ({
            let sel = newer_than(vs, v);
            &&& forall|i: int| 0 <= i < sel.len() ==> (#[trigger] sel[i]).key == key
            &&& forall|i: int| 0 <= i < sel.len()
                ==> v < (#[trigger] sel[i]).version && 1 <= sel[i].version <= global
            &&& forall|i: int, j: int| 0 <= i < j < sel.len()
                ==> (#[trigger] sel[i]).version < (#[trigger] sel[j]).version
        }),
    decreases vs.len(),
{
    if vs.len() > 0 {
        assert forall|i: int| 0 <= i < vs.drop_last().len()
            implies (#[trigger] vs.drop_last()[i]).key == key
                && 1 <= vs.drop_last()[i].version <= global by {
            assert(vs.drop_last()[i] == vs[i]);
        }
        assert forall|i: int, j: int| 0 <= i < j < vs.drop_last().len()
            implies (#[trigger] vs.drop_last()[i]).version
                < (#[trigger] vs.drop_last()[j]).version by {
            assert(vs.drop_last()[i] == vs[i]);
            assert(vs.drop_last()[j] == vs[j]);
        }
        lemma_newer_than_wf(key, vs.drop_last(), v, global);
        if vs.last().version > v {
            let sel = newer_than(vs, v);
            let selp = newer_than(vs.drop_last(), v);
            assert(sel =~= selp.push(vs.last()));
            assert forall|i: int, j: int| 0 <= i < j < sel.len()
                implies (#[trigger] sel[i]).version < (#[trigger] sel[j]).version by {
                if j < sel.len() - 1 {
                    assert(sel[i] == selp[i] && sel[j] == selp[j]);
                } else {
                    lemma_newer_member(vs.drop_last(), v, i);
                }
            }
        }
    }
}

/// Every selected entry appears in the history it was selected from.
pub proof fn lemma_newer_member(vs: Seq<EntryV>, v: u64, i: int)
    requires
        0 <= i < newer_than(vs, v).len(),
    ensures
        exists|j: int| 0 <= j < vs.len() && vs[j] == newer_than(vs, v)[i],
    decreases vs.len(),
{
    if vs.len() > 0 {
        let sel = newer_than(vs, v);
        let selp = newer_than(vs.drop_last(), v);
        if i < selp.len() {
            lemma_newer_member(vs.drop_last(), v, i);
            let j = choose|j: int| 0 <= j < vs.drop_last().len() && vs.drop_last()[j] == selp[i];
            assert(vs[j] == sel[i]);
        } else {
            assert(sel[i] == vs.last());
            assert(vs[vs.len() - 1] == sel[i]);
        }
    }
}

/// Merging newer fork entries into an existing slot preserves the map's
/// well-formedness.
pub proof fn lemma_merge_slot_wf(m: StoreMapV, i: int, fv: Seq<EntryV>, global: u64)
    requires
        map_wf(m, global),
        0 <= i < m.len(),
        history_wf(m[i].0, fv, global),
    ensures
        map_wf(
            m.update(i, (m[i].0, m[i].1 + newer_than(fv, last_version(m[i].1)))),
            global,
        ),
{
    let key = m[i].0;
    let base = m[i].1;
    let v = last_version(base);
    let sel = newer_than(fv, v);
    let merged = base + sel;
    lemma_newer_than_wf(key, fv, v, global);
    assert(history_wf(key, base, global));
    assert forall|x: int| 0 <= x < merged.len()
        implies (#[trigger] merged[x]).key == key && 1 <= merged[x].version <= global by {
        if x < base.len() {
            assert(merged[x] == base[x]);
        } else {
            assert(merged[x] == sel[x - base.len()]);
        }
    }
    assert forall|x: int, y: int| 0 <= x < y < merged.len()
        implies (#[trigger] merged[x]).version < (#[trigger] merged[y]).version by {
        if y < base.len() {
            assert(merged[x] == base[x] && merged[y] == base[y]);
        } else if x >= base.len() {
            assert(merged[x] == sel[x - base.len()] && merged[y] == sel[y - base.len()]);
        } else {
            assert(merged[x] == base[x]);
            assert(merged[y] == sel[y - base.len()]);
            assert(base.len() > 0);
            assert(base[x].version <= base[base.len() - 1].version) by {
                if x < base.len() - 1 {
                    assert(base[x].version < base[base.len() - 1].version);
                }
            }
            assert(v == base.last().version);
            assert(merged[y].version > v);
        }
    }
    let m2 = m.update(i, (key, merged));
    assert(history_wf(key, merged, global));
    assert forall|a: int| 0 <= a < m2.len()
        implies history_wf((#[trigger] m2[a]).0, m2[a].1, global) by {
        if a != i {
            assert(m2[a] == m[a]);
        }
    }
    assert forall|a: int, b: int| 0 <= a < b < m2.len()
        implies (#[trigger] m2[a]).0 != (#[trigger] m2[b]).0 by {
        assert(m2[a].0 == m[a].0);
        assert(m2[b].0 == m[b].0);
    }
}

/// Adding an unknown fork key whole preserves the map's well-formedness.
pub proof fn lemma_merge_push_wf(m: StoreMapV, key: Seq<char>, fv: Seq<EntryV>, global: u64)
    requires
        map_wf(m, global),
        history_wf(key, fv, global),
        !has_key(m, key),
    ensures
        map_wf(m.push((key, newer_than(fv, 0u64))), global),
{
    let sel = newer_than(fv, 0u64);
    lemma_newer_than_wf(key, fv, 0u64, global);
    let m2 = m.push((key, sel));
    assert(history_wf(key, sel, global));
    assert forall|a: int| 0 <= a < m2.len()
        implies history_wf((#[trigger] m2[a]).0, m2[a].1, global) by {
        if a < m.len() {
            assert(m2[a] == m[a]);
        }
    }
    assert forall|a: int, b: int| 0 <= a < b < m2.len()
        implies (#[trigger] m2[a]).0 != (#[trigger] m2[b]).0 by {
        if b == m.len() {
            assert(m2[a] == m[a]);
            if m[a].0 == key {
                assert(has_key(m, key));
                assert(false);
            }
        } else {
            assert(m2[a] == m[a] && m2[b] == m[b]);
        }
    }
}

/// An exact copy of a keyed history map.
fn duplicate_map(v: &Vec<(String, Vec<StateEntry>)>) -> (r: Vec<(String, Vec<StateEntry>)>)
    ensures
        r.deep_view() == v.deep_view(),
{
    let mut out: Vec<(String, Vec<StateEntry>)> = Vec::new();
    let mut i: usize = 0;
    while i < v.len()
        invariant
            i <= v@.len(),
            out@.len() == i,
            forall|j: int| 0 <= j < i
                ==> #[trigger] out@[j].deep_view() == v@[j].deep_view(),
        decreases v@.len() - i,
    {
        let mut vs: Vec<StateEntry> = Vec::new();
        let mut k: usize = 0;
        while k < v[i].1.len()
            invariant
                i < v@.len(),
                k <= v@[i as int].1@.len(),
                vs@.len() == k,
                forall|j: int| 0 <= j < k
                    ==> #[trigger] vs@[j]@ == v@[i as int].1@[j]@,
            decreases v@[i as int].1@.len() - k,
        {
            vs.push(v[i].1[k].duplicate());
            k = k + 1;
        }
        let pair = (v[i].0.clone(), vs);
        out.push(pair);
        proof {
            assert(out@[i as int].deep_view().1 =~~= v@[i as int].deep_view().1);
            assert(out@[i as int].deep_view() =~~= v@[i as int].deep_view());
        }
        i = i + 1;
    }
    proof {
        assert(out.deep_view() =~~= v.deep_view());
    }
    out
}

/// Within one key, versions strictly increase along the history: later
/// entries always carry larger versions, so observers of one key see a total
/// order consistent with the global counter.
pub proof fn lemma_version_monotone(s: InMemoryStateStore, key: Seq<char>, i: int, j: int)
    requires
        s.wf(),
        0 <= i < j < versions_of(s@.entries, key).len(),
    ensures
        versions_of(s@.entries, key)[i].version < versions_of(s@.entries, key)[j].version,
{
    if has_key(s@.entries, key) {
        let slot = key_slot(s@.entries, key);
        assert(0 <= slot < s@.entries.len() && s@.entries[slot].0 == key);
        assert(history_wf(s@.entries[slot].0, s@.entries[slot].1, s@.version));
    }
}

/// Fork isolation: a fork holds the state copied when it was made, and
/// writes to the main state leave every fork unchanged — as `set_at` and
/// `delete_at` promise — so the forked state still shows the old entries.
pub proof fn lemma_fork_isolated(
    before: StoreV,
    forked: StoreV,
    after: StoreV,
    fid: Id,
)
    requires
        forked.forks == before.forks.push((fid, before.entries)),
        after.forks == forked.forks,
    ensures
        after.forks[after.forks.len() - 1].1 == before.entries,
{
}

/// Temporal reads return the latest matching entry: `entry_at` yields exactly
/// the last entry of the history whose timestamp is at or before the queried
/// instant and which is not a tombstone, and nothing when no entry matches.
pub proof fn lemma_entry_at_is_latest_match(vs: Seq<EntryV>, ts: i64)
    ensures
        match entry_at(vs, ts) {
            Option::Some(e) => exists|i: int| 0 <= i < vs.len() && vs[i] == e
                && e.timestamp <= ts && !e.deleted
                && (forall|j: int| i < j < vs.len()
                    ==> !((#[trigger] vs[j]).timestamp <= ts && !vs[j].deleted)),
            Option::None => forall|i: int| 0 <= i < vs.len()
                ==> !((#[trigger] vs[i]).timestamp <= ts && !vs[i].deleted),
        },
    decreases vs.len(),
{
    if vs.len() > 0 {
        if vs.last().timestamp <= ts && !vs.last().deleted {
            let i = vs.len() - 1;
            assert(vs[i] == vs.last());
            assert(vs[i] == entry_at(vs, ts)->Some_0 && vs[i].timestamp <= ts && !vs[i].deleted
                && (forall|j: int| i < j < vs.len()
                    ==> !((#[trigger] vs[j]).timestamp <= ts && !vs[j].deleted)));
        } else {
            lemma_entry_at_is_latest_match(vs.drop_last(), ts);
            let prev = vs.drop_last();
            match entry_at(prev, ts) {
                Option::Some(e) => {
                    let i = choose|i: int| 0 <= i < prev.len() && prev[i] == e
                        && e.timestamp <= ts && !e.deleted
                        && (forall|j: int| i < j < prev.len()
                            ==> !((#[trigger] prev[j]).timestamp <= ts && !prev[j].deleted));
                    assert(vs[i] == prev[i]);
                    assert forall|j: int| i < j < vs.len()
                        implies !((#[trigger] vs[j]).timestamp <= ts && !vs[j].deleted) by {
                        if j < vs.len() - 1 {
                            assert(prev[j] == vs[j]);
                        }
                    }
                }
                Option::None => {
                    assert forall|i: int| 0 <= i < vs.len()
                        implies !((#[trigger] vs[i]).timestamp <= ts && !vs[i].deleted) by {
                        if i < vs.len() - 1 {
                            assert(prev[i] == vs[i]);
                        }
                    }
                }
            }
        }
    }
}

/// The latest non-tombstone entry of a history, regardless of later
/// tombstones.
pub open spec fn last_live(vs: Seq<EntryV>) -> Option<EntryV>
    decreases vs.len(),
{
    if vs.len() == 0 {
        Option::None
    } else if !vs.last().deleted {
        Option::Some(vs.last())
    } else {
        last_live(vs.drop_last())
    }
}

/// The live entries under a prefix: for each key of the map, in map order,
/// its latest non-tombstone entry, where the key starts with the prefix and
/// such an entry exists.
pub open spec fn prefix_live(m: StoreMapV, prefix: Seq<char>) -> Seq<EntryV>
    decreases m.len(),
{
    if m.len() == 0 {
        Seq::empty()
    } else {
        prefix_live(m.drop_last(), prefix) + if is_prefix(prefix, m.last().0) {
            match last_live(m.last().1) {
                Option::Some(e) => seq![e],
                Option::None => Seq::empty(),
            }
        } else {
            Seq::empty()
        }
    }
}

/// The live pairs of a map: for each key in map order, its latest
/// non-tombstone entry where one exists.
pub open spec fn live_pairs(m: StoreMapV) -> Seq<(Seq<char>, EntryV)>
    decreases m.len(),
{
    if m.len() == 0 {
        Seq::empty()
    } else {
        live_pairs(m.drop_last()) + match last_live(m.last().1) {
            Option::Some(e) => seq![(m.last().0, e)],
            Option::None => Seq::empty(),
        }
    }
}

/// The version of the last entry of a history; zero for an empty history.
pub open spec fn last_version(vs: Seq<EntryV>) -> u64 {
    if vs.len() == 0 {
        0u64
    } else {
        vs.last().version
    }
}

/// The entries of a history whose version exceeds a bound, in order.
pub open spec fn newer_than(vs: Seq<EntryV>, v: u64) -> Seq<EntryV>
    decreases vs.len(),
{
    if vs.len() == 0 {
        Seq::empty()
    } else {
        newer_than(vs.drop_last(), v) + if vs.last().version > v {
            seq![vs.last()]
        } else {
            Seq::empty()
        }
    }
}

/// A fork with the given id exists.
pub open spec fn has_fork(fks: Seq<(Id, StoreMapV)>, fid: Id) -> bool {
    exists|f: int| 0 <= f < fks.len() && (#[trigger] fks[f]).0 == fid
}

/// The first slot carrying the given fork id (the table's length when none
/// does).
pub open spec fn fork_slot(fks: Seq<(Id, StoreMapV)>, fid: Id) -> int
    decreases fks.len(),
{
    if fks.len() == 0 {
        0
    } else if fks[0].0 == fid {
        0
    } else {
        1 + fork_slot(fks.drop_first(), fid)
    }
}

/// The first fork slot lies in range exactly when the fork exists, and then
/// carries the id, with no earlier slot carrying it.
pub proof fn lemma_fork_slot(fks: Seq<(Id, StoreMapV)>, fid: Id)
    ensures
        0 <= fork_slot(fks, fid) <= fks.len(),
        has_fork(fks, fid) <==> fork_slot(fks, fid) < fks.len(),
        fork_slot(fks, fid) < fks.len() ==> fks[fork_slot(fks, fid)].0 == fid,
        forall|j: int| 0 <= j < fork_slot(fks, fid) ==> (#[trigger] fks[j]).0 != fid,
    decreases fks.len(),
{
    if fks.len() > 0 && fks[0].0 != fid {
        let tail = fks.drop_first();
        lemma_fork_slot(tail, fid);
        assert(forall|j: int| 0 <= j < tail.len() ==> #[trigger] tail[j] == fks[j + 1]);
        assert forall|j: int| 0 <= j < fork_slot(fks, fid)
            implies (#[trigger] fks[j]).0 != fid by {
            if j > 0 {
                assert(tail[j - 1] == fks[j]);
                assert(tail[j - 1].0 != fid);
            }
        }
        if has_fork(fks, fid) {
            let f = choose|f: int| 0 <= f < fks.len() && (#[trigger] fks[f]).0 == fid;
            assert(f > 0);
            assert(tail[f - 1].0 == fid);
            assert(has_fork(tail, fid));
        }
        if has_fork(tail, fid) {
            let f = choose|f: int| 0 <= f < tail.len() && (#[trigger] tail[f]).0 == fid;
            assert(fks[f + 1].0 == fid);
            assert(has_fork(fks, fid));
        }
    }
}

/// One key of a fork merged into a map: the fork entries newer than the
/// main history's tail are appended; an unknown key is added whole.
pub open spec fn merge_into(main: StoreMapV, key: Seq<char>, fvs: Seq<EntryV>) -> StoreMapV {
    if has_key(main, key) {
        let i = key_slot(main, key);
        main.update(i, (key, main[i].1 + newer_than(fvs, last_version(main[i].1))))
    } else {
        main.push((key, newer_than(fvs, 0)))
    }
}

/// A whole fork merged into a map, key by key in the fork's order.
pub open spec fn merge_all(main: StoreMapV, fk: StoreMapV) -> StoreMapV
    decreases fk.len(),
{
    if fk.len() == 0 {
        main
    } else {
        merge_into(merge_all(main, fk.drop_last()), fk.last().0, fk.last().1)
    }
}

/// A history well-formed against a version counter stays well-formed when the
/// counter grows.
pub proof fn lemma_history_wf_weaken(key: Seq<char>, vs: Seq<EntryV>, g1: u64, g2: u64)
    requires
        history_wf(key, vs, g1),
        g1 <= g2,
    ensures
        history_wf(key, vs, g2),
{
}

/// A map well-formed against a version counter stays well-formed when the
/// counter grows.
pub proof fn lemma_map_wf_weaken(m: StoreMapV, g1: u64, g2: u64)
    requires
        map_wf(m, g1),
        g1 <= g2,
    ensures
        map_wf(m, g2),
{
    assert forall|i: int| 0 <= i < m.len()
        implies history_wf((#[trigger] m[i]).0, m[i].1, g2) by {
        lemma_history_wf_weaken(m[i].0, m[i].1, g1, g2);
    }
}

/// Appending an entry for one key leaves every other key's history unchanged,
/// and leaves the appended key with its old history plus the entry.
pub proof fn lemma_append_versions(m: StoreMapV, key: Seq<char>, e: EntryV, global: u64)
    requires
        map_wf(m, global),
    ensures
        versions_of(map_after_append(m, key, e), key) == versions_of(m, key).push(e),
        forall|k: Seq<char>| k != key ==> versions_of(map_after_append(m, key, e), k)
            == versions_of(m, k),
{
    let m2 = map_after_append(m, key, e);
    if has_key(m, key) {
        let i = key_slot(m, key);
        assert(0 <= i < m.len() && m[i].0 == key);
        assert(m2 == m.update(i, (key, m[i].1.push(e))));
        assert(m2[i].0 == key);
        assert(has_key(m2, key));
        let i2 = key_slot(m2, key);
        assert(m2[i2].0 == key);
        if i2 != i {
            assert(m[i2].0 == m2[i2].0);
            assert(false);
        }
        assert(versions_of(m2, key) == m[i].1.push(e));
        assert(versions_of(m, key) == m[i].1);
        assert forall|k: Seq<char>| k != key
            implies versions_of(m2, k) == versions_of(m, k) by {
            if has_key(m, k) {
                let j = key_slot(m, k);
                assert(m[j].0 == k);
                assert(j != i);
                assert(m2[j].0 == k);
                assert(has_key(m2, k));
                let j2 = key_slot(m2, k);
                assert(m2[j2].0 == k);
                if j2 != j {
                    if j2 == i {
                        assert(m2[i].0 == key);
                        assert(false);
                    }
                    assert(m[j2].0 == k);
                    assert(false);
                }
            } else {
                if has_key(m2, k) {
                    let j2 = key_slot(m2, k);
                    assert(m2[j2].0 == k);
                    if j2 == i {
                        assert(false);
                    }
                    assert(m[j2].0 == k);
                    assert(false);
                }
            }
        }
    } else {
        assert(m2 == m.push((key, seq![e])));
        assert(m2[m.len() as int].0 == key);
        assert(has_key(m2, key));
        let i2 = key_slot(m2, key);
        assert(m2[i2].0 == key);
        if i2 != m.len() {
            assert(m[i2].0 == key);
            assert(false);
        }
        assert(versions_of(m, key) =~= Seq::<EntryV>::empty());
        assert(versions_of(m2, key) =~= versions_of(m, key).push(e));
        assert forall|k: Seq<char>| k != key
            implies versions_of(m2, k) == versions_of(m, k) by {
            if has_key(m, k) {
                let j = key_slot(m, k);
                assert(m[j].0 == k);
                assert(m2[j].0 == k);
                assert(has_key(m2, k));
                let j2 = key_slot(m2, k);
                assert(m2[j2].0 == k);
                if j2 != j {
                    if j2 == m.len() {
                        assert(false);
                    }
                    assert(m[j2].0 == k);
                    assert(false);
                }
            } else {
                if has_key(m2, k) {
                    let j2 = key_slot(m2, k);
                    assert(m2[j2].0 == k);
                    if j2 == m.len() {
                        assert(false);
                    }
                    assert(m[j2].0 == k);
                    assert(false);
                }
            }
        }
    }
}

} // verus!
