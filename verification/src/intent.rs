//! The intent model: an immutable declaration of a desired future state with
//! constraints, preferences and a budget. Costs are plain integers in
//! hundredths of a currency unit, preference weights in thousandths, and
//! timestamps in milliseconds since the Unix epoch.

use vstd::prelude::*;

use crate::clock::now_millis;
use crate::encoding::{
    bytes_of_i64, bytes_of_u64, bytes_of_u128, bytes_of_bool, enc_str, enc_opt_u64, enc_opt_i64,
    enc_opt_u128, enc_list, concat_enc, lemma_concat_enc_step, lemma_subrange_full, push_u64,
    push_u128, push_i64, push_bool, push_str, push_opt_u64, push_opt_i64, push_opt_u128,
};
use crate::errors::OrpheonError;
use crate::hashing::{hex_of, hex_encode, sha256, sha256_of};
use crate::ids::{Id, fresh_id};
use crate::types::Priority;

verus! {

/// Hard constraint that must be satisfied.
#[derive(Debug, Clone, PartialEq)]
pub enum Constraint {
    /// State must match an expression (e.g. "region == 'US-EAST'").
    StateMatch { expression: String },
    /// Resource usage must stay within a limit, in hundredths of a unit.
    ResourceLimit { resource: String, limit: u64 },
    /// An SLA metric must meet a threshold.
    Sla { metric: String, threshold: u64, unit: String },
    /// Must complete before a specific time (milliseconds since the epoch).
    Deadline { by: i64 },
    /// Must use a specific provider/node.
    Provider { node_id: String },
    /// Geographic restriction: the listed regions are allowed or denied.
    GeoFence { regions: Vec<String>, allowed: bool },
    /// Custom constraint with an arbitrary payload (JSON text).
    Custom { name: String, data: String },
}

/// Mathematical value of a constraint.
#[verifier::ext_equal]
pub enum ConstraintV {
    /// See [`Constraint::StateMatch`].
    StateMatch { expression: Seq<char> },
    /// See [`Constraint::ResourceLimit`].
    ResourceLimit { resource: Seq<char>, limit: u64 },
    /// See [`Constraint::Sla`].
    Sla { metric: Seq<char>, threshold: u64, unit: Seq<char> },
    /// See [`Constraint::Deadline`].
    Deadline { by: i64 },
    /// See [`Constraint::Provider`].
    Provider { node_id: Seq<char> },
    /// See [`Constraint::GeoFence`].
    GeoFence { regions: Seq<Seq<char>>, allowed: bool },
    /// See [`Constraint::Custom`].
    Custom { name: Seq<char>, data: Seq<char> },
}

impl View for Constraint {
    type V = ConstraintV;

    open spec fn view(&self) -> ConstraintV {
        match self {
            Constraint::StateMatch { expression } => ConstraintV::StateMatch {
                expression: expression@,
            },
            Constraint::ResourceLimit { resource, limit } => ConstraintV::ResourceLimit {
                resource: resource@,
                limit: *limit,
            },
            Constraint::Sla { metric, threshold, unit } => ConstraintV::Sla {
                metric: metric@,
                threshold: *threshold,
                unit: unit@,
            },
            Constraint::Deadline { by } => ConstraintV::Deadline { by: *by },
            Constraint::Provider { node_id } => ConstraintV::Provider { node_id: node_id@ },
            Constraint::GeoFence { regions, allowed } => ConstraintV::GeoFence {
                regions: regions.deep_view(),
                allowed: *allowed,
            },
            Constraint::Custom { name, data } => ConstraintV::Custom {
                name: name@,
                data: data@,
            },
        }
    }
}

impl Constraint {
    /// An exact copy of this constraint.
    pub fn duplicate(&self) -> (r: Self)
        ensures
            r@ == self@,
    {
        match self {
            Constraint::StateMatch { expression } => Constraint::StateMatch {
                expression: expression.clone(),
            },
            Constraint::ResourceLimit { resource, limit } => Constraint::ResourceLimit {
                resource: resource.clone(),
                limit: *limit,
            },
            Constraint::Sla { metric, threshold, unit } => Constraint::Sla {
                metric: metric.clone(),
                threshold: *threshold,
                unit: unit.clone(),
            },
            Constraint::Deadline { by } => Constraint::Deadline { by: *by },
            Constraint::Provider { node_id } => Constraint::Provider {
                node_id: node_id.clone(),
            },
            Constraint::GeoFence { regions, allowed } => {
                let mut rs: Vec<String> = Vec::new();
                let mut i: usize = 0;
                while i < regions.len()
                    invariant
                        i <= regions@.len(),
                        rs@.len() == i,
                        forall|j: int| 0 <= j < i ==> #[trigger] rs@[j]@ == regions@[j]@,
                    decreases regions@.len() - i,
                {
                    rs.push(regions[i].clone());
                    i = i + 1;
                }
                let r = Constraint::GeoFence { regions: rs, allowed: *allowed };
                proof {
                    assert(r@ matches ConstraintV::GeoFence { regions: rv, allowed: av }
                        && rv =~= regions.deep_view() && av == *allowed);
                }
                r
            }
            Constraint::Custom { name, data } => Constraint::Custom {
                name: name.clone(),
                data: data.clone(),
            },
        }
    }
}

/// Optimization direction of a preference.
#[derive(Debug, Clone, Copy, PartialEq, Eq, Structural)]
pub enum OptimizationDirection {
    /// Smaller values of the objective are better.
    Minimize,
    /// Larger values of the objective are better.
    Maximize,
}

/// Optimization preference (soft constraint). The weight is in thousandths:
/// 1000 stands for a weight of one.
#[derive(Debug, Clone, PartialEq)]
pub struct Preference {
    /// What to optimize (e.g. "cost", "latency", "reliability").
    pub objective: String,
    /// Direction: minimize or maximize.
    pub direction: OptimizationDirection,
    /// Weight for multi-objective optimization, in thousandths (0 to 1000).
    pub weight: u32,
}

/// Mathematical value of a preference.
#[verifier::ext_equal]
pub struct PreferenceV {
    /// See [`Preference::objective`].
    pub objective: Seq<char>,
    /// See [`Preference::direction`].
    pub direction: OptimizationDirection,
    /// See [`Preference::weight`].
    pub weight: u32,
}

impl View for Preference {
    type V = PreferenceV;

    open spec fn view(&self) -> PreferenceV {
        PreferenceV { objective: self.objective@, direction: self.direction, weight: self.weight }
    }
}

impl Preference {
    /// An exact copy of this preference.
    pub fn duplicate(&self) -> (r: Self)
        ensures
            r@ == self@,
    {
        Preference {
            objective: self.objective.clone(),
            direction: self.direction,
            weight: self.weight,
        }
    }
}

/// Budget for intent execution. Costs are in hundredths of a currency unit.
#[derive(Debug, Clone, PartialEq)]
pub struct Budget {
    /// Maximum monetary cost allowed, in hundredths of a unit.
    pub max_cost: Option<u64>,
    /// Currency for the cost (e.g. "USD").
    pub currency: String,
    /// Maximum execution time in milliseconds.
    pub max_duration_ms: Option<u64>,
    /// Maximum number of retries allowed.
    pub max_retries: u32,
}

/// Mathematical value of a budget.
#[verifier::ext_equal]
pub struct BudgetV {
    /// See [`Budget::max_cost`].
    pub max_cost: Option<u64>,
    /// See [`Budget::currency`].
    pub currency: Seq<char>,
    /// See [`Budget::max_duration_ms`].
    pub max_duration_ms: Option<u64>,
    /// See [`Budget::max_retries`].
    pub max_retries: u32,
}

impl View for Budget {
    type V = BudgetV;

    open spec fn view(&self) -> BudgetV {
        BudgetV {
            max_cost: self.max_cost,
            currency: self.currency@,
            max_duration_ms: self.max_duration_ms,
            max_retries: self.max_retries,
        }
    }
}

impl Default for Budget {
    /// An empty budget: no limits, empty currency, no retries.
    fn default() -> (r: Self)
        ensures
            r.max_cost == Option::<u64>::None,
            r.currency@ == Seq::<char>::empty(),
            r.max_duration_ms == Option::<u64>::None,
            r.max_retries == 0u32,
    {
        Budget {
            max_cost: None,
            currency: String::new(),
            max_duration_ms: None,
            max_retries: 0,
        }
    }
}

impl Budget {
    /// A USD budget with the given cost limit (hundredths of a dollar) and
    /// three retries.
    pub fn usd(amount: u64) -> (r: Self)
        ensures
            r.max_cost == Option::Some(amount),
            r.currency@ == "USD"@,
            r.max_duration_ms == Option::<u64>::None,
            r.max_retries == 3u32,
    {
        Budget {
            max_cost: Some(amount),
            currency: String::from_str("USD"),
            max_duration_ms: None,
            max_retries: 3,
        }
    }

    /// Set the maximum duration.
    pub fn with_duration(self, duration_ms: u64) -> (r: Self)
        ensures
            r@ == (BudgetV { max_duration_ms: Option::Some(duration_ms), ..self@ }),
    {
        Budget { max_duration_ms: Some(duration_ms), ..self }
    }

    /// Set the maximum number of retries.
    pub fn with_retries(self, retries: u32) -> (r: Self)
        ensures
            r@ == (BudgetV { max_retries: retries, ..self@ }),
    {
        Budget { max_retries: retries, ..self }
    }

    /// An exact copy of this budget.
    pub fn duplicate(&self) -> (r: Self)
        ensures
            r@ == self@,
    {
        Budget {
            max_cost: self.max_cost,
            currency: self.currency.clone(),
            max_duration_ms: self.max_duration_ms,
            max_retries: self.max_retries,
        }
    }
}

/// Time window during which an intent is valid. Both bounds are in
/// milliseconds since the Unix epoch; a missing bound does not constrain.
#[derive(Debug, Clone, Copy, PartialEq, Eq, Structural)]
pub struct TimeWindow {
    /// Earliest time the intent can begin execution.
    pub not_before: Option<i64>,
    /// Latest time by which the intent must complete.
    pub not_after: Option<i64>,
}

impl TimeWindow {
    /// Whether the given instant lies inside the window.
    pub open spec fn spec_valid_at(self, now_ms: i64) -> bool {
        &&& match self.not_before {
            Option::Some(t) => now_ms >= t,
            Option::None => true,
        }
        &&& match self.not_after {
            Option::Some(t) => now_ms <= t,
            Option::None => true,
        }
    }

    /// A window that is open from the given instant for the given duration.
    pub fn valid_for_at(now_ms: i64, duration_ms: i64) -> (r: Self)
        requires
            0 <= duration_ms,
        ensures
            r.not_before == Option::<i64>::None,
            r.not_after == Option::Some(
                if now_ms + duration_ms <= i64::MAX { (now_ms + duration_ms) as i64 } else { i64::MAX },
            ),
    {
        let end: i64 = if now_ms <= i64::MAX - duration_ms {
            now_ms + duration_ms
        } else {
            i64::MAX
        };
        TimeWindow { not_before: None, not_after: Some(end) }
    }

    /// A window that is valid for the given duration from now.
    pub fn valid_for(duration_ms: i64) -> (r: Self)
        requires
            0 <= duration_ms,
        ensures
            r.not_before == Option::<i64>::None,
            r.not_after is Some,
    {
        TimeWindow::valid_for_at(now_millis(), duration_ms)
    }

    /// Check whether the given instant is within the window.
    pub fn is_valid_at(&self, now_ms: i64) -> (r: bool)
        ensures
            r == self.spec_valid_at(now_ms),
    {
        let after_start = match self.not_before {
            Some(t) => now_ms >= t,
            None => true,
        };
        let before_end = match self.not_after {
            Some(t) => now_ms <= t,
            None => true,
        };
        after_start && before_end
    }

    /// Check whether the current time is within the window.
    pub fn is_valid_now(&self) -> bool {
        self.is_valid_at(now_millis())
    }
}

impl Default for TimeWindow {
    /// The default window: open now, closing twenty-four hours from now.
    fn default() -> (r: Self)
        ensures
            r.not_before == Option::<i64>::None,
            r.not_after is Some,
    {
        TimeWindow::valid_for(86_400_000)
    }
}

/// Cryptographic signature for intent authentication.
#[derive(Debug, Clone, PartialEq)]
pub struct Signature {
    /// The algorithm used (e.g. "ed25519", "secp256k1").
    pub algorithm: String,
    /// The public key of the signer (hex-encoded).
    pub public_key: String,
    /// The signature bytes (hex-encoded).
    pub signature: String,
    /// When the signature was created (milliseconds since the epoch).
    pub signed_at: i64,
}

/// Mathematical value of a signature.
#[verifier::ext_equal]
pub struct SignatureV {
    /// See [`Signature::algorithm`].
    pub algorithm: Seq<char>,
    /// See [`Signature::public_key`].
    pub public_key: Seq<char>,
    /// See [`Signature::signature`].
    pub signature: Seq<char>,
    /// See [`Signature::signed_at`].
    pub signed_at: i64,
}

impl View for Signature {
    type V = SignatureV;

    open spec fn view(&self) -> SignatureV {
        SignatureV {
            algorithm: self.algorithm@,
            public_key: self.public_key@,
            signature: self.signature@,
            signed_at: self.signed_at,
        }
    }
}

/// An intent: a declaration of a desired future state, immutable once signed.
#[derive(Debug, Clone)]
pub struct Intent {
    /// Unique identifier for this intent.
    pub id: Id,
    /// The semantic type of the intent (e.g. "provision_compute").
    pub kind: String,
    /// Hard constraints that must be met.
    pub constraints: Vec<Constraint>,
    /// Optimization preferences.
    pub preferences: Vec<Preference>,
    /// The budget allowed for this execution.
    pub budget: Budget,
    /// The temporal window in which this intent is valid.
    pub validity_window: TimeWindow,
    /// Priority level for this intent.
    pub priority: Priority,
    /// Arbitrary metadata for the intent, as JSON text.
    pub metadata: String,
    /// Cryptographic signature of the issuer.
    pub signature: Option<Signature>,
    /// When the intent was created (milliseconds since the epoch).
    pub created_at: i64,
    /// Parent intent ID (for recursive intents).
    pub parent_id: Option<Id>,
}

/// Mathematical value of an intent.
#[verifier::ext_equal]
pub struct IntentV {
    /// See [`Intent::id`].
    pub id: Id,
    /// See [`Intent::kind`].
    pub kind: Seq<char>,
    /// See [`Intent::constraints`].
    pub constraints: Seq<ConstraintV>,
    /// See [`Intent::preferences`].
    pub preferences: Seq<PreferenceV>,
    /// See [`Intent::budget`].
    pub budget: BudgetV,
    /// See [`Intent::validity_window`].
    pub validity_window: TimeWindow,
    /// See [`Intent::priority`].
    pub priority: Priority,
    /// See [`Intent::metadata`].
    pub metadata: Seq<char>,
    /// See [`Intent::signature`].
    pub signature: Option<SignatureV>,
    /// See [`Intent::created_at`].
    pub created_at: i64,
    /// See [`Intent::parent_id`].
    pub parent_id: Option<Id>,
}

impl View for Intent {
    type V = IntentV;

    open spec fn view(&self) -> IntentV {
        IntentV {
            id: self.id,
            kind: self.kind@,
            constraints: Seq::new(self.constraints@.len(), |i: int| self.constraints@[i]@),
            preferences: Seq::new(self.preferences@.len(), |i: int| self.preferences@[i]@),
            budget: self.budget@,
            validity_window: self.validity_window,
            priority: self.priority,
            metadata: self.metadata@,
            signature: match self.signature {
                Option::Some(s) => Option::Some(s@),
                Option::None => Option::None,
            },
            created_at: self.created_at,
            parent_id: self.parent_id,
        }
    }
}

impl DeepView for Intent {
    type V = IntentV;

    open spec fn deep_view(&self) -> IntentV {
        self.view()
    }
}

/// A character the engine treats as blank in intent kinds.
pub open spec fn is_blank_char(c: char) -> bool {
    c == ' ' || c == '\t' || c == '\n' || c == '\r'
}

/// A kind is blank when it has no character that is not blank; the empty
/// kind is blank.
pub open spec fn spec_kind_blank(kind: Seq<char>) -> bool {
    forall|i: int| 0 <= i < kind.len() ==> is_blank_char(#[trigger] kind[i])
}

/// Sum of preference weights, in thousandths.
pub open spec fn sum_weights(ps: Seq<PreferenceV>) -> int
    decreases ps.len(),
{
    if ps.len() == 0 {
        0
    } else {
        sum_weights(ps.drop_last()) + ps.last().weight
    }
}

/// Preference weights are acceptable when there are no preferences, or when
/// their sum deviates from one by at most one hundredth.
pub open spec fn spec_weights_ok(ps: Seq<PreferenceV>) -> bool {
    ps.len() == 0 || (990 <= sum_weights(ps) <= 1010)
}

/// Weights are non-negative, so a prefix sum never exceeds the full sum.
pub proof fn lemma_sum_weights_prefix_le(ps: Seq<PreferenceV>, i: int)
    requires
        0 <= i <= ps.len(),
    ensures
        sum_weights(ps.subrange(0, i)) <= sum_weights(ps),
    decreases ps.len() - i,
{
    if i == ps.len() {
        lemma_subrange_full(ps);
    } else {
        lemma_sum_weights_prefix_le(ps, i + 1);
        assert(ps.subrange(0, i + 1).drop_last() =~= ps.subrange(0, i));
        assert(ps.subrange(0, i + 1).last() == ps[i]);
    }
}

fn kind_is_blank(s: &str) -> (r: bool)
    ensures
        r == spec_kind_blank(s@),
{
    let n = s.unicode_len();
    let mut i: usize = 0;
    while i < n
        invariant
            i <= n,
            n == s@.len(),
            forall|j: int| 0 <= j < i ==> is_blank_char(#[trigger] s@[j]),
        decreases n - i,
    {
        let c = s.get_char(i);
        if !(c == ' ' || c == '\t' || c == '\n' || c == '\r') {
            proof {
                assert(!is_blank_char(s@[i as int]));
            }
            return false;
        }
        i = i + 1;
    }
    true
}

impl Intent {
    /// Whether this intent passes validation at the given instant.
    pub open spec fn spec_valid_at(v: IntentV, now_ms: i64) -> bool {
        &&& !spec_kind_blank(v.kind)
        &&& v.validity_window.spec_valid_at(now_ms)
        &&& spec_weights_ok(v.preferences)
    }

    /// Create a new IntentBuilder.
    pub fn builder() -> (r: IntentBuilder)
        ensures
            r.kind is None,
            r.constraints@.len() == 0,
            r.preferences@.len() == 0,
            r.budget.max_cost is None,
            r.budget.max_duration_ms is None,
            r.budget@.max_retries == 0u32,
            r.priority == Priority::Normal,
            r.metadata@ == "null"@,
            r.parent_id is None,
    {
        IntentBuilder::new()
    }

    /// Validate the intent against the given instant: the kind must not be
    /// blank, the instant must lie in the validity window, and preference
    /// weights, if any, must sum to one within a hundredth. Exactly the
    /// failing check is reported, earliest first.
    pub fn validate_at(&self, now_ms: i64) -> (r: Result<(), OrpheonError>)
        ensures
            r is Ok <==> Intent::spec_valid_at(self@, now_ms),
            spec_kind_blank(self@.kind) ==> (r matches Err(e)
                && e matches OrpheonError::IntentInvalid { intent_id, message }
                && intent_id == Some(self.id)
                && message@ == "Intent kind cannot be empty"@),
            !spec_kind_blank(self@.kind) && !self.validity_window.spec_valid_at(now_ms)
                ==> (r matches Err(e)
                    && e matches OrpheonError::IntentInvalid { intent_id, message }
                    && intent_id == Some(self.id)
                    && message@ == "Intent is outside its validity window"@),
            !spec_kind_blank(self@.kind) && self.validity_window.spec_valid_at(now_ms)
                && !spec_weights_ok(self@.preferences)
                ==> (r matches Err(e)
                    && e matches OrpheonError::IntentInvalid { intent_id, message }
                    && intent_id == Some(self.id)
                    && message@ == "Preference weights must sum to 1.0"@),
    {
        if kind_is_blank(self.kind.as_str()) {
            return Err(OrpheonError::IntentInvalid {
                intent_id: Some(self.id),
                message: String::from_str("Intent kind cannot be empty"),
            });
        }

        if !self.validity_window.is_valid_at(now_ms) {
            return Err(OrpheonError::IntentInvalid {
                intent_id: Some(self.id),
                message: String::from_str("Intent is outside its validity window"),
            });
        }

        if self.preferences.len() > 0 {
            let mut total: u64 = 0;
            let mut i: usize = 0;
            let ghost ps = self@.preferences;
            proof {
                assert(ps.subrange(0, 0) =~= Seq::<PreferenceV>::empty());
            }
            while i < self.preferences.len()
                invariant
                    i <= self.preferences@.len(),
                    ps.len() == self.preferences@.len(),
                    forall|j: int| 0 <= j < ps.len()
                        ==> #[trigger] ps[j] == self.preferences@[j]@,
                    total == sum_weights(ps.subrange(0, i as int)),
                    total <= 1010,
                    self@.preferences == ps,
                    self.id == self@.id,
                    !spec_kind_blank(self@.kind),
                    self.validity_window.spec_valid_at(now_ms),
                decreases self.preferences@.len() - i,
            {
                proof {
                    assert(ps.subrange(0, i + 1).drop_last() =~= ps.subrange(0, i as int));
                    assert(ps.subrange(0, i + 1).last() == ps[i as int]);
                }
                total = total + self.preferences[i].weight as u64;
                i = i + 1;
                if total > 1010 {
                    proof {
                        lemma_sum_weights_prefix_le(ps, i as int);
                    }
                    return Err(OrpheonError::IntentInvalid {
                        intent_id: Some(self.id),
                        message: String::from_str("Preference weights must sum to 1.0"),
                    });
                }
            }
            proof {
                lemma_subrange_full(ps);
            }
            if total < 990 {
                return Err(OrpheonError::IntentInvalid {
                    intent_id: Some(self.id),
                    message: String::from_str("Preference weights must sum to 1.0"),
                });
            }
        }

        Ok(())
    }

    /// Validate the intent at the current time.
    pub fn validate(&self) -> (r: Result<(), OrpheonError>)
        ensures
            r is Ok ==> !spec_kind_blank(self@.kind) && spec_weights_ok(self@.preferences),
            spec_kind_blank(self@.kind) ==> r is Err,
            r is Err ==> (r matches Err(e)
                && e matches OrpheonError::IntentInvalid { intent_id, .. }
                && intent_id == Some(self.id)),
    {
        self.validate_at(now_millis())
    }

    /// Check if this intent has a parent (is part of a recursive chain).
    pub fn is_child(&self) -> (r: bool)
        ensures
            r == (self.parent_id is Some),
    {
        self.parent_id.is_some()
    }
}

/// Canonical bytes of a constraint: a variant tag, then its fields.
pub open spec fn enc_constraint(c: ConstraintV) -> Seq<u8> {
    match c {
        ConstraintV::StateMatch { expression } => seq![0u8] + enc_str(expression),
        ConstraintV::ResourceLimit { resource, limit } =>
            seq![1u8] + enc_str(resource) + bytes_of_u64(limit),
        ConstraintV::Sla { metric, threshold, unit } =>
            seq![2u8] + enc_str(metric) + bytes_of_u64(threshold) + enc_str(unit),
        ConstraintV::Deadline { by } => seq![3u8] + bytes_of_i64(by),
        ConstraintV::Provider { node_id } => seq![4u8] + enc_str(node_id),
        ConstraintV::GeoFence { regions, allowed } =>
            seq![5u8] + enc_list(regions, |s: Seq<char>| enc_str(s)) + bytes_of_bool(allowed),
        ConstraintV::Custom { name, data } => seq![6u8] + enc_str(name) + enc_str(data),
    }
}

/// Canonical bytes of a preference.
pub open spec fn enc_preference(p: PreferenceV) -> Seq<u8> {
    enc_str(p.objective)
        + seq![if p.direction == OptimizationDirection::Minimize { 0u8 } else { 1u8 }]
        + bytes_of_u64(p.weight as u64)
}

/// Canonical bytes of a budget.
pub open spec fn enc_budget(b: BudgetV) -> Seq<u8> {
    enc_opt_u64(b.max_cost) + enc_str(b.currency) + enc_opt_u64(b.max_duration_ms)
        + bytes_of_u64(b.max_retries as u64)
}

/// Canonical bytes of a time window.
pub open spec fn enc_window(w: TimeWindow) -> Seq<u8> {
    enc_opt_i64(w.not_before) + enc_opt_i64(w.not_after)
}

/// Canonical tag byte of a priority.
pub open spec fn enc_priority(p: Priority) -> Seq<u8> {
    match p {
        Priority::Low => seq![0u8],
        Priority::Normal => seq![1u8],
        Priority::High => seq![2u8],
        Priority::Critical => seq![3u8],
    }
}

/// Canonical bytes of an intent's content: every field except the signature,
/// in the fixed order id, kind, constraints, preferences, budget, validity
/// window, priority, metadata, creation time, parent id.
pub open spec fn content_bytes_of(v: IntentV) -> Seq<u8> {
    bytes_of_u128(v.id.bits)
        + enc_str(v.kind)
        + enc_list(v.constraints, |c: ConstraintV| enc_constraint(c))
        + enc_list(v.preferences, |p: PreferenceV| enc_preference(p))
        + enc_budget(v.budget)
        + enc_window(v.validity_window)
        + enc_priority(v.priority)
        + enc_str(v.metadata)
        + bytes_of_i64(v.created_at)
        + enc_opt_u128(match v.parent_id {
            Option::Some(p) => Option::Some(p.bits),
            Option::None => Option::None,
        })
}

fn push_constraint(out: &mut Vec<u8>, c: &Constraint)
    ensures
        final(out)@ == old(out)@ + enc_constraint(c@),
{
    match c {
        Constraint::StateMatch { expression } => {
            out.push(0u8);
            push_str(out, expression.as_str());
            proof {
                assert(final(out)@ =~= old(out)@ + enc_constraint(c@));
            }
        }
        Constraint::ResourceLimit { resource, limit } => {
            out.push(1u8);
            push_str(out, resource.as_str());
            push_u64(out, *limit);
            proof {
                assert(final(out)@ =~= old(out)@ + enc_constraint(c@));
            }
        }
        Constraint::Sla { metric, threshold, unit } => {
            out.push(2u8);
            push_str(out, metric.as_str());
            push_u64(out, *threshold);
            push_str(out, unit.as_str());
            proof {
                assert(final(out)@ =~= old(out)@ + enc_constraint(c@));
            }
        }
        Constraint::Deadline { by } => {
            out.push(3u8);
            push_i64(out, *by);
            proof {
                assert(final(out)@ =~= old(out)@ + enc_constraint(c@));
            }
        }
        Constraint::Provider { node_id } => {
            out.push(4u8);
            push_str(out, node_id.as_str());
            proof {
                assert(final(out)@ =~= old(out)@ + enc_constraint(c@));
            }
        }
        Constraint::GeoFence { regions, allowed } => {
            out.push(5u8);
            push_u64(out, regions.len() as u64);
            let ghost rs = regions.deep_view();
            let ghost f = |s: Seq<char>| enc_str(s);
            let ghost base = out@;
            let mut i: usize = 0;
            proof {
                assert(rs.subrange(0, 0) =~= Seq::<Seq<char>>::empty());
                assert(base + concat_enc(rs.subrange(0, 0), f) =~= base);
            }
            while i < regions.len()
                invariant
                    i <= regions@.len(),
                    rs == regions.deep_view(),
                    rs.len() == regions@.len(),
                    out@ == base + concat_enc(rs.subrange(0, i as int), f),
                    f == (|s: Seq<char>| enc_str(s)),
                decreases regions@.len() - i,
            {
                push_str(out, regions[i].as_str());
                proof {
                    lemma_concat_enc_step(rs, f, i as int);
                    assert(rs[i as int] == regions@[i as int]@);
                }
                i = i + 1;
            }
            push_bool(out, *allowed);
            proof {
                lemma_subrange_full(rs);
                assert(final(out)@ =~= old(out)@ + enc_constraint(c@));
            }
        }
        Constraint::Custom { name, data } => {
            out.push(6u8);
            push_str(out, name.as_str());
            push_str(out, data.as_str());
            proof {
                assert(final(out)@ =~= old(out)@ + enc_constraint(c@));
            }
        }
    }
}

fn push_preference(out: &mut Vec<u8>, p: &Preference)
    ensures
        final(out)@ == old(out)@ + enc_preference(p@),
{
    push_str(out, p.objective.as_str());
    out.push(match p.direction {
        OptimizationDirection::Minimize => 0u8,
        OptimizationDirection::Maximize => 1u8,
    });
    push_u64(out, p.weight as u64);
    proof {
        assert(final(out)@ =~= old(out)@ + enc_preference(p@));
    }
}

impl Intent {
    /// The canonical content bytes of this intent (all fields but the
    /// signature).
    #[verifier::rlimit(60)]
    pub fn content_bytes(&self) -> (r: Vec<u8>)
        ensures
            r@ == content_bytes_of(self@),
    {
        let mut out: Vec<u8> = Vec::new();
        push_u128(&mut out, self.id.bits);
        push_str(&mut out, self.kind.as_str());

        let ghost fc = |c: ConstraintV| enc_constraint(c);
        let ghost cs = self@.constraints;
        push_u64(&mut out, self.constraints.len() as u64);
        let ghost base_c = out@;
        let mut i: usize = 0;
        proof {
            assert(cs.subrange(0, 0) =~= Seq::<ConstraintV>::empty());
            assert(base_c + concat_enc(cs.subrange(0, 0), fc) =~= base_c);
        }
        while i < self.constraints.len()
            invariant
                i <= self.constraints@.len(),
                cs == self@.constraints,
                cs.len() == self.constraints@.len(),
                forall|j: int| 0 <= j < cs.len() ==> #[trigger] cs[j] == self.constraints@[j]@,
                out@ == base_c + concat_enc(cs.subrange(0, i as int), fc),
                fc == (|c: ConstraintV| enc_constraint(c)),
            decreases self.constraints@.len() - i,
        {
            push_constraint(&mut out, &self.constraints[i]);
            proof {
                lemma_concat_enc_step(cs, fc, i as int);
            }
            i = i + 1;
        }
        proof {
            lemma_subrange_full(cs);
        }

        let ghost fp = |p: PreferenceV| enc_preference(p);
        let ghost ps = self@.preferences;
        push_u64(&mut out, self.preferences.len() as u64);
        let ghost base_p = out@;
        let mut k: usize = 0;
        proof {
            assert(ps.subrange(0, 0) =~= Seq::<PreferenceV>::empty());
            assert(base_p + concat_enc(ps.subrange(0, 0), fp) =~= base_p);
        }
        while k < self.preferences.len()
            invariant
                k <= self.preferences@.len(),
                ps == self@.preferences,
                ps.len() == self.preferences@.len(),
                forall|j: int| 0 <= j < ps.len() ==> #[trigger] ps[j] == self.preferences@[j]@,
                out@ == base_p + concat_enc(ps.subrange(0, k as int), fp),
                fp == (|p: PreferenceV| enc_preference(p)),
            decreases self.preferences@.len() - k,
        {
            push_preference(&mut out, &self.preferences[k]);
            proof {
                lemma_concat_enc_step(ps, fp, k as int);
            }
            k = k + 1;
        }
        proof {
            lemma_subrange_full(ps);
        }

        push_opt_u64(&mut out, &self.budget.max_cost);
        push_str(&mut out, self.budget.currency.as_str());
        push_opt_u64(&mut out, &self.budget.max_duration_ms);
        push_u64(&mut out, self.budget.max_retries as u64);

        push_opt_i64(&mut out, &self.validity_window.not_before);
        push_opt_i64(&mut out, &self.validity_window.not_after);

        out.push(match self.priority {
            Priority::Low => 0u8,
            Priority::Normal => 1u8,
            Priority::High => 2u8,
            Priority::Critical => 3u8,
        });

        push_str(&mut out, self.metadata.as_str());
        push_i64(&mut out, self.created_at);
        let parent_bits: Option<u128> = match &self.parent_id {
            Some(p) => Some(p.bits),
            None => None,
        };
        push_opt_u128(&mut out, &parent_bits);

        proof {
            assert(out@ =~= content_bytes_of(self@));
        }
        out
    }

    /// The content hash of the intent (used for signing): the SHA-256 digest
    /// of its canonical content bytes, hex-encoded. A pure function of the
    /// intent's content: the signature does not enter it.
    pub fn content_hash(&self) -> (r: String)
        ensures
            r@ == hex_of(sha256_of(content_bytes_of(self@))),
            r@.len() == 64,
    {
        let bytes = self.content_bytes();
        let digest = sha256(bytes.as_slice());
        proof {
            crate::hashing::lemma_hex_of_len(digest@);
        }
        hex_encode(digest.as_slice())
    }

    /// An exact copy of this intent.
    pub fn duplicate(&self) -> (r: Self)
        ensures
            r@ == self@,
    {
        let mut constraints: Vec<Constraint> = Vec::new();
        let mut i: usize = 0;
        while i < self.constraints.len()
            invariant
                i <= self.constraints@.len(),
                constraints@.len() == i,
                forall|j: int| 0 <= j < i
                    ==> #[trigger] constraints@[j]@ == self.constraints@[j]@,
            decreases self.constraints@.len() - i,
        {
            constraints.push(self.constraints[i].duplicate());
            i = i + 1;
        }

        let mut preferences: Vec<Preference> = Vec::new();
        let mut k: usize = 0;
        while k < self.preferences.len()
            invariant
                k <= self.preferences@.len(),
                preferences@.len() == k,
                forall|j: int| 0 <= j < k
                    ==> #[trigger] preferences@[j]@ == self.preferences@[j]@,
            decreases self.preferences@.len() - k,
        {
            preferences.push(self.preferences[k].duplicate());
            k = k + 1;
        }

        let r = Intent {
            id: self.id,
            kind: self.kind.clone(),
            constraints,
            preferences,
            budget: self.budget.duplicate(),
            validity_window: self.validity_window,
            priority: self.priority,
            metadata: self.metadata.clone(),
            signature: match &self.signature {
                Some(s) => Some(Signature {
                    algorithm: s.algorithm.clone(),
                    public_key: s.public_key.clone(),
                    signature: s.signature.clone(),
                    signed_at: s.signed_at,
                }),
                None => None,
            },
            created_at: self.created_at,
            parent_id: self.parent_id,
        };
        proof {
            assert(r@.constraints =~= self@.constraints);
            assert(r@.preferences =~= self@.preferences);
        }
        r
    }
}

/// Two intents with the same content (all fields but the signature) have the
/// same canonical content bytes, and so the same content hash.
pub proof fn lemma_content_hash_is_content_determined(a: IntentV, b: IntentV)
    requires
        a.id == b.id,
        a.kind == b.kind,
        a.constraints == b.constraints,
        a.preferences == b.preferences,
        a.budget.max_cost == b.budget.max_cost,
        a.budget.currency == b.budget.currency,
        a.budget.max_duration_ms == b.budget.max_duration_ms,
        a.budget.max_retries == b.budget.max_retries,
        a.validity_window == b.validity_window,
        a.priority == b.priority,
        a.metadata == b.metadata,
        a.created_at == b.created_at,
        a.parent_id == b.parent_id,
    ensures
        content_bytes_of(a) == content_bytes_of(b),
        hex_of(sha256_of(content_bytes_of(a))) == hex_of(sha256_of(content_bytes_of(b))),
{
}

/// Builder for creating intents with a fluent API.
#[derive(Debug)]
pub struct IntentBuilder {
    /// The kind to give the intent; building fails while it is unset.
    pub kind: Option<String>,
    /// Constraints collected so far.
    pub constraints: Vec<Constraint>,
    /// Preferences collected so far.
    pub preferences: Vec<Preference>,
    /// The budget to give the intent.
    pub budget: Budget,
    /// The validity window to give the intent.
    pub validity_window: TimeWindow,
    /// The priority to give the intent.
    pub priority: Priority,
    /// The metadata to give the intent, as JSON text.
    pub metadata: String,
    /// The parent id to give the intent.
    pub parent_id: Option<Id>,
}

impl IntentBuilder {
    /// Create a new builder with no kind, no constraints or preferences, an
    /// empty budget, the default validity window, normal priority and null
    /// metadata.
    pub fn new() -> (r: Self)
        ensures
            r.kind is None,
            r.constraints@.len() == 0,
            r.preferences@.len() == 0,
            r.budget.max_cost is None,
            r.budget.max_duration_ms is None,
            r.budget@.max_retries == 0u32,
            r.budget@.currency == Seq::<char>::empty(),
            r.validity_window.not_before is None,
            r.priority == Priority::Normal,
            r.metadata@ == "null"@,
            r.parent_id is None,
    {
        IntentBuilder {
            kind: None,
            constraints: Vec::new(),
            preferences: Vec::new(),
            budget: Budget::default(),
            validity_window: TimeWindow::default(),
            priority: Priority::Normal,
            metadata: String::from_str("null"),
            parent_id: None,
        }
    }

    /// Set the kind of intent.
    pub fn kind(self, kind: &str) -> (r: Self)
        ensures
            r.kind matches Some(k) && k@ == kind@,
            r.constraints@ == self.constraints@,
            r.preferences@ == self.preferences@,
            r.budget@ == self.budget@,
            r.validity_window == self.validity_window,
            r.priority == self.priority,
            r.metadata@ == self.metadata@,
            r.parent_id == self.parent_id,
    {
        IntentBuilder { kind: Some(kind.to_owned()), ..self }
    }

    /// Add a constraint.
    pub fn constraint(self, constraint: Constraint) -> (r: Self)
        ensures
            r.constraints@ == self.constraints@.push(constraint),
            r.kind == self.kind,
            r.preferences@ == self.preferences@,
            r.budget@ == self.budget@,
            r.validity_window == self.validity_window,
            r.priority == self.priority,
            r.metadata@ == self.metadata@,
            r.parent_id == self.parent_id,
    {
        let mut s = self;
        s.constraints.push(constraint);
        s
    }

    /// Add a state match constraint.
    pub fn state_match(self, expression: &str) -> (r: Self)
        ensures
            r.constraints@.len() == self.constraints@.len() + 1,
            r.constraints@.last()@ matches ConstraintV::StateMatch { expression: e }
                && e == expression@,
            r.constraints@.subrange(0, self.constraints@.len() as int) == self.constraints@,
            r.kind == self.kind,
            r.preferences@ == self.preferences@,
    {
        let c = Constraint::StateMatch { expression: expression.to_owned() };
        let r = self.constraint(c);
        proof {
            assert(r.constraints@.subrange(0, r.constraints@.len() - 1)
                =~= r.constraints@.drop_last());
        }
        r
    }

    /// Add a resource limit constraint, the limit in hundredths of a unit.
    pub fn resource_limit(self, resource: &str, limit: u64) -> (r: Self)
        ensures
            r.constraints@.len() == self.constraints@.len() + 1,
            r.constraints@.last()@ matches ConstraintV::ResourceLimit { resource: res, limit: l }
                && res == resource@ && l == limit,
            r.constraints@.subrange(0, self.constraints@.len() as int) == self.constraints@,
            r.kind == self.kind,
            r.preferences@ == self.preferences@,
    {
        let c = Constraint::ResourceLimit { resource: resource.to_owned(), limit };
        let r = self.constraint(c);
        proof {
            assert(r.constraints@.subrange(0, r.constraints@.len() - 1)
                =~= r.constraints@.drop_last());
        }
        r
    }

    /// Add an SLA constraint.
    pub fn sla(self, metric: &str, threshold: u64, unit: &str) -> (r: Self)
        ensures
            r.constraints@.len() == self.constraints@.len() + 1,
            r.constraints@.last()@ matches ConstraintV::Sla { metric: m, threshold: t, unit: u }
                && m == metric@ && t == threshold && u == unit@,
            r.constraints@.subrange(0, self.constraints@.len() as int) == self.constraints@,
            r.kind == self.kind,
            r.preferences@ == self.preferences@,
    {
        let c = Constraint::Sla {
            metric: metric.to_owned(),
            threshold,
            unit: unit.to_owned(),
        };
        let r = self.constraint(c);
        proof {
            assert(r.constraints@.subrange(0, r.constraints@.len() - 1)
                =~= r.constraints@.drop_last());
        }
        r
    }

    /// Add a preference.
    pub fn preference(self, preference: Preference) -> (r: Self)
        ensures
            r.preferences@ == self.preferences@.push(preference),
            r.kind == self.kind,
            r.constraints@ == self.constraints@,
            r.budget@ == self.budget@,
            r.validity_window == self.validity_window,
            r.priority == self.priority,
            r.metadata@ == self.metadata@,
            r.parent_id == self.parent_id,
    {
        let mut s = self;
        s.preferences.push(preference);
        s
    }

    /// Add a minimize objective; the weight is in thousandths.
    pub fn minimize(self, objective: &str, weight: u32) -> (r: Self)
        ensures
            r.preferences@.len() == self.preferences@.len() + 1,
            r.preferences@.last()@ == (PreferenceV {
                objective: objective@,
                direction: OptimizationDirection::Minimize,
                weight,
            }),
            r.preferences@.subrange(0, self.preferences@.len() as int) == self.preferences@,
            r.kind == self.kind,
            r.constraints@ == self.constraints@,
    {
        let p = Preference {
            objective: objective.to_owned(),
            direction: OptimizationDirection::Minimize,
            weight,
        };
        let r = self.preference(p);
        proof {
            assert(r.preferences@.subrange(0, r.preferences@.len() - 1)
                =~= r.preferences@.drop_last());
        }
        r
    }

    /// Add a maximize objective; the weight is in thousandths.
    pub fn maximize(self, objective: &str, weight: u32) -> (r: Self)
        ensures
            r.preferences@.len() == self.preferences@.len() + 1,
            r.preferences@.last()@ == (PreferenceV {
                objective: objective@,
                direction: OptimizationDirection::Maximize,
                weight,
            }),
            r.preferences@.subrange(0, self.preferences@.len() as int) == self.preferences@,
            r.kind == self.kind,
            r.constraints@ == self.constraints@,
    {
        let p = Preference {
            objective: objective.to_owned(),
            direction: OptimizationDirection::Maximize,
            weight,
        };
        let r = self.preference(p);
        proof {
            assert(r.preferences@.subrange(0, r.preferences@.len() - 1)
                =~= r.preferences@.drop_last());
        }
        r
    }

    /// Set the budget.
    pub fn budget(self, budget: Budget) -> (r: Self)
        ensures
            r.budget@ == budget@,
            r.kind == self.kind,
            r.constraints@ == self.constraints@,
            r.preferences@ == self.preferences@,
            r.validity_window == self.validity_window,
            r.priority == self.priority,
            r.metadata@ == self.metadata@,
            r.parent_id == self.parent_id,
    {
        IntentBuilder { budget, ..self }
    }

    /// Set the validity window.
    pub fn validity_window(self, window: TimeWindow) -> (r: Self)
        ensures
            r.validity_window == window,
            r.kind == self.kind,
            r.constraints@ == self.constraints@,
            r.preferences@ == self.preferences@,
            r.budget@ == self.budget@,
    {
        IntentBuilder { validity_window: window, ..self }
    }

    /// Set the priority.
    pub fn priority(self, priority: Priority) -> (r: Self)
        ensures
            r.priority == priority,
            r.kind == self.kind,
            r.constraints@ == self.constraints@,
            r.preferences@ == self.preferences@,
            r.budget@ == self.budget@,
    {
        IntentBuilder { priority, ..self }
    }

    /// Set the metadata (JSON text).
    pub fn metadata(self, metadata: String) -> (r: Self)
        ensures
            r.metadata@ == metadata@,
            r.kind == self.kind,
            r.constraints@ == self.constraints@,
            r.preferences@ == self.preferences@,
            r.budget@ == self.budget@,
    {
        IntentBuilder { metadata, ..self }
    }

    /// Set the parent intent ID (for recursive intents).
    pub fn parent(self, parent_id: Id) -> (r: Self)
        ensures
            r.parent_id == Some(parent_id),
            r.kind == self.kind,
            r.constraints@ == self.constraints@,
            r.preferences@ == self.preferences@,
            r.budget@ == self.budget@,
    {
        IntentBuilder { parent_id: Some(parent_id), ..self }
    }

    /// Build the intent. Fails exactly when no kind was set; the result, when
    /// built, carries the builder's fields, a fresh id, no signature, and the
    /// creation time.
    pub fn build(self) -> (r: Result<Intent, OrpheonError>)
        ensures
            r is Ok <==> self.kind is Some,
            r matches Ok(intent) ==> {
                &&& self.kind matches Some(k) && intent.kind@ == k@
                &&& intent@.constraints == Seq::new(
                    self.constraints@.len(),
                    |i: int| self.constraints@[i]@,
                )
                &&& intent@.preferences == Seq::new(
                    self.preferences@.len(),
                    |i: int| self.preferences@[i]@,
                )
                &&& intent.budget@ == self.budget@
                &&& intent.validity_window == self.validity_window
                &&& intent.priority == self.priority
                &&& intent.metadata@ == self.metadata@
                &&& intent.signature is None
                &&& intent.parent_id == self.parent_id
            },
            r matches Err(e) ==> (e matches OrpheonError::IntentInvalid { intent_id, message }
                && intent_id is None
                && message@ == "Intent kind is required"@),
    {
        match self.kind {
            None => Err(OrpheonError::IntentInvalid {
                intent_id: None,
                message: String::from_str("Intent kind is required"),
            }),
            Some(kind) => Ok(Intent {
                id: fresh_id(),
                kind,
                constraints: self.constraints,
                preferences: self.preferences,
                budget: self.budget,
                validity_window: self.validity_window,
                priority: self.priority,
                metadata: self.metadata,
                signature: None,
                created_at: now_millis(),
                parent_id: self.parent_id,
            }),
        }
    }
}

} // verus!
