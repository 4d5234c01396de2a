//! Temporal capabilities around the store: point-in-time snapshots, query
//! times, and fork descriptors.

use vstd::prelude::*;

use crate::clock::now_millis;
use crate::ids::{Id, fresh_id};
use crate::store::{StateEntry, EntryV};

verus! {

/// A point-in-time snapshot of the state: the live entry of each key.
#[derive(Debug, Clone)]
pub struct StateSnapshot {
    /// Unique ID for this snapshot.
    pub id: Id,
    /// Version of the state at snapshot time.
    pub version: u64,
    /// When the snapshot was taken (milliseconds since the epoch).
    pub timestamp: i64,
    /// The live entries at snapshot time, keyed, in the store's key order.
    pub entries: Vec<(String, StateEntry)>,
}

impl StateSnapshot {
    /// The snapshot's entries as values.
    pub open spec fn spec_entries(self) -> Seq<(Seq<char>, EntryV)> {
        self.entries.deep_view()
    }

    /// Get a value from the snapshot.
    pub fn get(&self, key: &String) -> (r: Option<&StateEntry>)
        ensures
            r matches Some(e) ==> exists|i: int| 0 <= i < self.spec_entries().len()
                && (#[trigger] self.spec_entries()[i]).0 == key@
                && self.spec_entries()[i].1 == e@,
            r is None ==> forall|i: int| 0 <= i < self.spec_entries().len()
                ==> (#[trigger] self.spec_entries()[i]).0 != key@,
    {
        let ghost es = self.spec_entries();
        let mut i: usize = 0;
        while i < self.entries.len()
            invariant
                i <= self.entries@.len(),
                es == self.spec_entries(),
                es.len() == self.entries@.len(),
                forall|j: int| 0 <= j < i ==> (#[trigger] es[j]).0 != key@,
            decreases self.entries@.len() - i,
        {
            if self.entries[i].0 == *key {
                proof {
                    assert(es[i as int].0 == key@);
                    assert(es[i as int].1 == self.entries@[i as int].1@);
                }
                return Some(&self.entries[i].1);
            }
            i = i + 1;
        }
        None
    }

    /// All keys in the snapshot, in order.
    pub fn keys(&self) -> (r: Vec<String>)
        ensures
            r.deep_view() == Seq::new(
                self.spec_entries().len(),
                |i: int| self.spec_entries()[i].0,
            ),
    {
        let mut out: Vec<String> = Vec::new();
        let mut i: usize = 0;
        while i < self.entries.len()
            invariant
                i <= self.entries@.len(),
                out@.len() == i,
                forall|j: int| 0 <= j < i
                    ==> #[trigger] out@[j]@ == self.spec_entries()[j].0,
            decreases self.entries@.len() - i,
        {
            out.push(self.entries[i].0.clone());
            i = i + 1;
        }
        proof {
            assert(out.deep_view() =~~= Seq::new(
                self.spec_entries().len(),
                |i: int| self.spec_entries()[i].0,
            ));
        }
        out
    }

    /// The number of entries.
    pub fn len(&self) -> (r: usize)
        ensures
            r == self.spec_entries().len(),
    {
        self.entries.len()
    }

    /// Check if the snapshot is empty.
    pub fn is_empty(&self) -> (r: bool)
        ensures
            r == (self.spec_entries().len() == 0),
    {
        self.entries.len() == 0
    }
}

/// Specification of a point in time for time-travel queries.
#[derive(Debug, Clone, Copy, PartialEq, Eq, Structural)]
pub enum QueryTime {
    /// Absolute timestamp (milliseconds since the epoch).
    Timestamp(i64),
    /// Relative offset from now, in seconds (negative = past).
    Offset(i64),
    /// Specific version number (resolution needs store context).
    Version(u64),
}

impl QueryTime {
    /// The instant this query time denotes, seen from the given instant:
    /// absolute times stand by themselves, offsets add whole seconds to now
    /// (saturating at the representable ends), and version queries fall back
    /// to now.
    pub open spec fn spec_resolve_at(self, now_ms: i64) -> i64 {
        match self {
            QueryTime::Timestamp(ts) => ts,
            QueryTime::Offset(secs) => {
                let shifted = now_ms + secs * 1000;
                if shifted > i64::MAX {
                    i64::MAX
                } else if shifted < i64::MIN {
                    i64::MIN
                } else {
                    shifted as i64
                }
            }
            QueryTime::Version(_) => now_ms,
        }
    }

    /// Resolve against a given instant.
    pub fn resolve_at(&self, now_ms: i64) -> (r: i64)
        ensures
            r == self.spec_resolve_at(now_ms),
    {
        match self {
            QueryTime::Timestamp(ts) => *ts,
            QueryTime::Offset(secs) => {
                let s = *secs;
                let shifted: i128 = now_ms as i128 + (s as i128) * 1000;
                if shifted > i64::MAX as i128 {
                    i64::MAX
                } else if shifted < i64::MIN as i128 {
                    i64::MIN
                } else {
                    shifted as i64
                }
            }
            QueryTime::Version(_) => now_ms,
        }
    }

    /// Resolve to an absolute timestamp against the current time.
    pub fn resolve(&self) -> (r: i64)
        ensures
            self matches QueryTime::Timestamp(ts) ==> r == ts,
    {
        self.resolve_at(now_millis())
    }
}

/// Query for time-travel operations.
#[derive(Debug, Clone)]
pub struct TimeTravelQuery {
    /// The point in time to query.
    pub as_of: QueryTime,
    /// Keys to retrieve (None = all keys).
    pub keys: Option<Vec<String>>,
    /// Key prefix filter.
    pub prefix: Option<String>,
}

/// A change that would occur during a simulation.
#[derive(Debug, Clone)]
pub struct SimulatedChange {
    /// Step in the simulation.
    pub step: u32,
    /// Key affected.
    pub key: String,
    /// Old value, as JSON text.
    pub old_value: Option<String>,
    /// New value, as JSON text.
    pub new_value: Option<String>,
    /// Timestamp in the simulation.
    pub timestamp: i64,
}

/// Result of a simulation (speculative execution).
#[derive(Debug, Clone)]
pub struct SimulationResult {
    /// ID of the simulation.
    pub id: Id,
    /// Initial state snapshot.
    pub initial_state: StateSnapshot,
    /// Final state after simulation.
    pub final_state: StateSnapshot,
    /// Changes that would occur.
    pub changes: Vec<SimulatedChange>,
    /// Whether the simulation succeeded.
    pub success: bool,
    /// Error message if failed.
    pub error: Option<String>,
    /// Simulated duration in milliseconds.
    pub simulated_duration_ms: u64,
    /// Simulated cost, in hundredths of a unit.
    pub simulated_cost: u64,
}

/// State fork descriptor for copy-on-write branching.
#[derive(Debug, Clone)]
pub struct StateFork {
    /// Unique ID for this fork.
    pub id: Id,
    /// Name of the fork.
    pub name: String,
    /// When the fork was created (milliseconds since the epoch).
    pub created_at: i64,
    /// Parent fork ID (None = main state).
    pub parent_id: Option<Id>,
    /// Fork-specific state changes, keyed.
    pub changes: Vec<(String, StateEntry)>,
}

impl StateFork {
    /// A new fork off the main state, with a fresh id and no changes.
    pub fn new(name: &str) -> (r: Self)
        ensures
            r.name@ == name@,
            r.parent_id is None,
            r.changes@.len() == 0,
    {
        StateFork {
            id: fresh_id(),
            name: name.to_owned(),
            created_at: now_millis(),
            parent_id: None,
            changes: Vec::new(),
        }
    }

    /// A child fork of this fork, with a fresh id and no changes.
    pub fn child(&self, name: &str) -> (r: Self)
        ensures
            r.name@ == name@,
            r.parent_id == Some(self.id),
            r.changes@.len() == 0,
    {
        StateFork {
            id: fresh_id(),
            name: name.to_owned(),
            created_at: now_millis(),
            parent_id: Some(self.id),
            changes: Vec::new(),
        }
    }
}

} // verus!
