//! State change events and subscription filters. The broadcast bus that
//! distributes events is transport plumbing and lives outside the library;
//! what a filter matches is decided here.

use vstd::prelude::*;

use crate::store::{StateEntry, EntryV};
use crate::text::{is_prefix, str_starts_with};

verus! {

/// Type of state change.
#[derive(Debug, Clone, Copy, PartialEq, Eq, Structural)]
pub enum ChangeType {
    /// New key created.
    Created,
    /// Existing key updated.
    Updated,
    /// Key deleted.
    Deleted,
}

/// A state change event.
#[derive(Debug, Clone)]
pub struct StateChangeEvent {
    /// The key that changed.
    pub key: String,
    /// The new value (None if deleted).
    pub new_value: Option<StateEntry>,
    /// The previous value (None if new key).
    pub old_value: Option<StateEntry>,
    /// Type of change.
    pub change_type: ChangeType,
    /// When the change happened (milliseconds since the epoch).
    pub timestamp: i64,
}

/// Mathematical value of a state change event.
#[verifier::ext_equal]
pub struct StateChangeEventV {
    /// See [`StateChangeEvent::key`].
    pub key: Seq<char>,
    /// See [`StateChangeEvent::new_value`].
    pub new_value: Option<EntryV>,
    /// See [`StateChangeEvent::old_value`].
    pub old_value: Option<EntryV>,
    /// See [`StateChangeEvent::change_type`].
    pub change_type: ChangeType,
    /// See [`StateChangeEvent::timestamp`].
    pub timestamp: i64,
}

impl View for StateChangeEvent {
    type V = StateChangeEventV;

    open spec fn view(&self) -> StateChangeEventV {
        StateChangeEventV {
            key: self.key@,
            new_value: match &self.new_value {
                Option::Some(e) => Option::Some(e@),
                Option::None => Option::None,
            },
            old_value: match &self.old_value {
                Option::Some(e) => Option::Some(e@),
                Option::None => Option::None,
            },
            change_type: self.change_type,
            timestamp: self.timestamp,
        }
    }
}

/// Filter for subscriptions. An unset field does not constrain.
#[derive(Debug, Clone)]
pub struct SubscriptionFilter {
    /// Key prefix to match.
    pub key_prefix: Option<String>,
    /// Specific keys to watch.
    pub keys: Option<Vec<String>>,
    /// Change types to watch.
    pub change_types: Option<Vec<ChangeType>>,
    /// Reserved filter expression; not interpreted.
    pub expression: Option<String>,
}

/// Mathematical value of a subscription filter.
#[verifier::ext_equal]
pub struct SubscriptionFilterV {
    /// See [`SubscriptionFilter::key_prefix`].
    pub key_prefix: Option<Seq<char>>,
    /// See [`SubscriptionFilter::keys`].
    pub keys: Option<Seq<Seq<char>>>,
    /// See [`SubscriptionFilter::change_types`].
    pub change_types: Option<Seq<ChangeType>>,
    /// See [`SubscriptionFilter::expression`].
    pub expression: Option<Seq<char>>,
}

impl View for SubscriptionFilter {
    type V = SubscriptionFilterV;

    open spec fn view(&self) -> SubscriptionFilterV {
        SubscriptionFilterV {
            key_prefix: match &self.key_prefix {
                Option::Some(p) => Option::Some(p@),
                Option::None => Option::None,
            },
            keys: match &self.keys {
                Option::Some(ks) => Option::Some(ks.deep_view()),
                Option::None => Option::None,
            },
            change_types: match &self.change_types {
                Option::Some(ts) => Option::Some(ts@),
                Option::None => Option::None,
            },
            expression: match &self.expression {
                Option::Some(e) => Option::Some(e@),
                Option::None => Option::None,
            },
        }
    }
}

/// What a filter matches: the key must start with the prefix where one is
/// set, lie in the key set where one is set, and the change type must lie in
/// the type set where one is set. The reserved expression does not
/// constrain.
pub open spec fn filter_matches(f: SubscriptionFilterV, e: StateChangeEventV) -> bool {
    &&& match f.key_prefix {
        Option::Some(p) => is_prefix(p, e.key),
        Option::None => true,
    }
    &&& match f.keys {
        Option::Some(ks) => ks.contains(e.key),
        Option::None => true,
    }
    &&& match f.change_types {
        Option::Some(ts) => ts.contains(e.change_type),
        Option::None => true,
    }
}

impl Default for SubscriptionFilter {
    /// The empty filter: it matches every event.
    fn default() -> (r: Self)
        ensures
            r.key_prefix is None,
            r.keys is None,
            r.change_types is None,
            r.expression is None,
    {
        SubscriptionFilter {
            key_prefix: None,
            keys: None,
            change_types: None,
            expression: None,
        }
    }
}

impl SubscriptionFilter {
    /// A filter for a key prefix.
    pub fn prefix(prefix: &str) -> (r: Self)
        ensures
            r@.key_prefix matches Some(p) && p == prefix@,
            r.keys is None,
            r.change_types is None,
            r.expression is None,
    {
        SubscriptionFilter {
            key_prefix: Some(prefix.to_owned()),
            keys: None,
            change_types: None,
            expression: None,
        }
    }

    /// A filter for specific keys.
    pub fn keys(keys: Vec<String>) -> (r: Self)
        ensures
            r@.keys matches Some(ks) && ks == keys.deep_view(),
            r.key_prefix is None,
            r.change_types is None,
            r.expression is None,
    {
        SubscriptionFilter {
            key_prefix: None,
            keys: Some(keys),
            change_types: None,
            expression: None,
        }
    }

    /// Check whether an event matches this filter.
    pub fn matches(&self, event: &StateChangeEvent) -> (r: bool)
        ensures
            r == filter_matches(self@, event@),
    {
        match &self.key_prefix {
            Some(prefix) => {
                if !str_starts_with(event.key.as_str(), prefix.as_str()) {
                    return false;
                }
            }
            None => {}
        }

        match &self.keys {
            Some(keys) => {
                let ghost ks = keys.deep_view();
                let mut i: usize = 0;
                let mut found = false;
                while i < keys.len()
                    invariant
                        i <= keys@.len(),
                        ks == keys.deep_view(),
                        ks.len() == keys@.len(),
                        found ==> ks.contains(event.key@),
                        !found ==> forall|j: int| 0 <= j < i ==> ks[j] != event.key@,
                    decreases keys@.len() - i,
                {
                    if !found && keys[i] == event.key {
                        proof {
                            assert(ks[i as int] == event.key@);
                        }
                        found = true;
                    }
                    i = i + 1;
                }
                if !found {
                    proof {
                        if ks.contains(event.key@) {
                            let j = choose|j: int| 0 <= j < ks.len() && ks[j] == event.key@;
                            assert(false);
                        }
                    }
                    return false;
                }
            }
            None => {}
        }

        match &self.change_types {
            Some(types) => {
                let ghost ts = types@;
                let mut i: usize = 0;
                let mut found = false;
                while i < types.len()
                    invariant
                        i <= types@.len(),
                        ts == types@,
                        found ==> ts.contains(event.change_type),
                        !found ==> forall|j: int| 0 <= j < i ==> ts[j] != event.change_type,
                    decreases types@.len() - i,
                {
                    if !found && types[i] == event.change_type {
                        proof {
                            assert(ts[i as int] == event.change_type);
                        }
                        found = true;
                    }
                    i = i + 1;
                }
                if !found {
                    proof {
                        if ts.contains(event.change_type) {
                            let j = choose|j: int| 0 <= j < ts.len()
                                && ts[j] == event.change_type;
                            assert(false);
                        }
                    }
                    return false;
                }
            }
            None => {}
        }

        true
    }
}

} // verus!
