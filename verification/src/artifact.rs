//! Execution artifacts: the proof of outcome produced when an intent is
//! finalized. The artifact carries the full event trace and a Merkle root
//! over it, recomputed on every append, so the trace is tamper-evident.

use vstd::prelude::*;

use crate::clock::now_millis;
use crate::encoding::{
    bytes_of_i64, bytes_of_u128, enc_str, enc_opt_u64, push_u128, push_i64, push_str,
    push_opt_u64,
};
use crate::ids::{Id, fresh_id};
use crate::hashing::{hex_of, hex_encode, sha256, sha256_of};
use crate::intent::{Intent, IntentV};
use crate::plan::{Plan, PlanV};

verus! {

/// Types of execution events.
#[derive(Debug, Clone, PartialEq, Eq)]
pub enum ExecutionEventType {
    /// Step execution started.
    StepStarted,
    /// Step execution completed successfully.
    StepCompleted,
    /// Step execution failed.
    StepFailed,
    /// Step is being retried.
    StepRetrying,
    /// Compensation action started.
    CompensationStarted,
    /// Compensation action completed.
    CompensationCompleted,
    /// State was updated.
    StateUpdated,
    /// Resource was allocated.
    ResourceAllocated,
    /// Resource was released.
    ResourceReleased,
    /// External API was called.
    ExternalCall,
    /// Timeout occurred.
    Timeout,
    /// Custom event type.
    Custom(String),
}

/// Mathematical value of an event type.
#[verifier::ext_equal]
pub enum EventTypeV {
    /// See [`ExecutionEventType::StepStarted`].
    StepStarted,
    /// See [`ExecutionEventType::StepCompleted`].
    StepCompleted,
    /// See [`ExecutionEventType::StepFailed`].
    StepFailed,
    /// See [`ExecutionEventType::StepRetrying`].
    StepRetrying,
    /// See [`ExecutionEventType::CompensationStarted`].
    CompensationStarted,
    /// See [`ExecutionEventType::CompensationCompleted`].
    CompensationCompleted,
    /// See [`ExecutionEventType::StateUpdated`].
    StateUpdated,
    /// See [`ExecutionEventType::ResourceAllocated`].
    ResourceAllocated,
    /// See [`ExecutionEventType::ResourceReleased`].
    ResourceReleased,
    /// See [`ExecutionEventType::ExternalCall`].
    ExternalCall,
    /// See [`ExecutionEventType::Timeout`].
    Timeout,
    /// See [`ExecutionEventType::Custom`].
    Custom(Seq<char>),
}

impl View for ExecutionEventType {
    type V = EventTypeV;

    open spec fn view(&self) -> EventTypeV {
        match self {
            ExecutionEventType::StepStarted => EventTypeV::StepStarted,
            ExecutionEventType::StepCompleted => EventTypeV::StepCompleted,
            ExecutionEventType::StepFailed => EventTypeV::StepFailed,
            ExecutionEventType::StepRetrying => EventTypeV::StepRetrying,
            ExecutionEventType::CompensationStarted => EventTypeV::CompensationStarted,
            ExecutionEventType::CompensationCompleted => EventTypeV::CompensationCompleted,
            ExecutionEventType::StateUpdated => EventTypeV::StateUpdated,
            ExecutionEventType::ResourceAllocated => EventTypeV::ResourceAllocated,
            ExecutionEventType::ResourceReleased => EventTypeV::ResourceReleased,
            ExecutionEventType::ExternalCall => EventTypeV::ExternalCall,
            ExecutionEventType::Timeout => EventTypeV::Timeout,
            ExecutionEventType::Custom(name) => EventTypeV::Custom(name@),
        }
    }
}

impl ExecutionEventType {
    /// An exact copy of this event type.
    pub fn duplicate(&self) -> (r: Self)
        ensures
            r@ == self@,
    {
        match self {
            ExecutionEventType::StepStarted => ExecutionEventType::StepStarted,
            ExecutionEventType::StepCompleted => ExecutionEventType::StepCompleted,
            ExecutionEventType::StepFailed => ExecutionEventType::StepFailed,
            ExecutionEventType::StepRetrying => ExecutionEventType::StepRetrying,
            ExecutionEventType::CompensationStarted => ExecutionEventType::CompensationStarted,
            ExecutionEventType::CompensationCompleted => ExecutionEventType::CompensationCompleted,
            ExecutionEventType::StateUpdated => ExecutionEventType::StateUpdated,
            ExecutionEventType::ResourceAllocated => ExecutionEventType::ResourceAllocated,
            ExecutionEventType::ResourceReleased => ExecutionEventType::ResourceReleased,
            ExecutionEventType::ExternalCall => ExecutionEventType::ExternalCall,
            ExecutionEventType::Timeout => ExecutionEventType::Timeout,
            ExecutionEventType::Custom(name) => ExecutionEventType::Custom(name.clone()),
        }
    }

}

/// Canonical tag bytes of an event type: a tag byte, and the name for custom
/// types.
pub open spec fn enc_event_type(t: EventTypeV) -> Seq<u8> {
    match t {
        EventTypeV::StepStarted => seq![0u8],
        EventTypeV::StepCompleted => seq![1u8],
        EventTypeV::StepFailed => seq![2u8],
        EventTypeV::StepRetrying => seq![3u8],
        EventTypeV::CompensationStarted => seq![4u8],
        EventTypeV::CompensationCompleted => seq![5u8],
        EventTypeV::StateUpdated => seq![6u8],
        EventTypeV::ResourceAllocated => seq![7u8],
        EventTypeV::ResourceReleased => seq![8u8],
        EventTypeV::ExternalCall => seq![9u8],
        EventTypeV::Timeout => seq![10u8],
        EventTypeV::Custom(name) => seq![11u8] + enc_str(name),
    }
}

/// An event that occurred during execution.
#[derive(Debug, Clone)]
pub struct ExecutionEvent {
    /// Unique identifier for this event.
    pub id: Id,
    /// The step this event is associated with.
    pub step_id: Id,
    /// Type of event.
    pub event_type: ExecutionEventType,
    /// When the event occurred (milliseconds since the epoch).
    pub timestamp: i64,
    /// Duration of the operation in milliseconds (if applicable).
    pub duration_ms: Option<u64>,
    /// Additional data about the event, as JSON text.
    pub data: String,
}

/// Mathematical value of an event.
#[verifier::ext_equal]
pub struct EventV {
    /// See [`ExecutionEvent::id`].
    pub id: Id,
    /// See [`ExecutionEvent::step_id`].
    pub step_id: Id,
    /// See [`ExecutionEvent::event_type`].
    pub event_type: EventTypeV,
    /// See [`ExecutionEvent::timestamp`].
    pub timestamp: i64,
    /// See [`ExecutionEvent::duration_ms`].
    pub duration_ms: Option<u64>,
    /// See [`ExecutionEvent::data`].
    pub data: Seq<char>,
}

impl View for ExecutionEvent {
    type V = EventV;

    open spec fn view(&self) -> EventV {
        EventV {
            id: self.id,
            step_id: self.step_id,
            event_type: self.event_type@,
            timestamp: self.timestamp,
            duration_ms: self.duration_ms,
            data: self.data@,
        }
    }
}

/// Canonical bytes of an event: id, step id, type, timestamp, duration, data.
pub open spec fn event_bytes(e: EventV) -> Seq<u8> {
    bytes_of_u128(e.id.bits) + bytes_of_u128(e.step_id.bits) + enc_event_type(e.event_type)
        + bytes_of_i64(e.timestamp) + enc_opt_u64(e.duration_ms) + enc_str(e.data)
}

/// The values of a sequence of events.
pub open spec fn event_views(tr: Seq<ExecutionEvent>) -> Seq<EventV> {
    Seq::new(tr.len(), |i: int| tr[i]@)
}

impl ExecutionEvent {
    /// The canonical bytes of this event, hashed into the Merkle trace.
    pub fn canonical_bytes(&self) -> (r: Vec<u8>)
        ensures
            r@ == event_bytes(self@),
    {
        let mut out: Vec<u8> = Vec::new();
        push_u128(&mut out, self.id.bits);
        push_u128(&mut out, self.step_id.bits);
        match &self.event_type {
            ExecutionEventType::StepStarted => out.push(0u8),
            ExecutionEventType::StepCompleted => out.push(1u8),
            ExecutionEventType::StepFailed => out.push(2u8),
            ExecutionEventType::StepRetrying => out.push(3u8),
            ExecutionEventType::CompensationStarted => out.push(4u8),
            ExecutionEventType::CompensationCompleted => out.push(5u8),
            ExecutionEventType::StateUpdated => out.push(6u8),
            ExecutionEventType::ResourceAllocated => out.push(7u8),
            ExecutionEventType::ResourceReleased => out.push(8u8),
            ExecutionEventType::ExternalCall => out.push(9u8),
            ExecutionEventType::Timeout => out.push(10u8),
            ExecutionEventType::Custom(name) => {
                out.push(11u8);
                push_str(&mut out, name.as_str());
            }
        }
        push_i64(&mut out, self.timestamp);
        push_opt_u64(&mut out, &self.duration_ms);
        push_str(&mut out, self.data.as_str());
        proof {
            assert(out@ =~= event_bytes(self@));
        }
        out
    }

    /// A new step-started event for the given step, stamped now.
    pub fn step_started(step_id: Id) -> (r: Self)
        ensures
            r.step_id == step_id,
            r@.event_type == EventTypeV::StepStarted,
            r.duration_ms is None,
            r.data@ == "null"@,
    {
        ExecutionEvent {
            id: fresh_id(),
            step_id,
            event_type: ExecutionEventType::StepStarted,
            timestamp: now_millis(),
            duration_ms: None,
            data: String::from_str("null"),
        }
    }

    /// A new step-completed event for the given step, stamped now.
    pub fn step_completed(step_id: Id, duration_ms: u64) -> (r: Self)
        ensures
            r.step_id == step_id,
            r@.event_type == EventTypeV::StepCompleted,
            r.duration_ms == Some(duration_ms),
            r.data@ == "null"@,
    {
        ExecutionEvent {
            id: fresh_id(),
            step_id,
            event_type: ExecutionEventType::StepCompleted,
            timestamp: now_millis(),
            duration_ms: Some(duration_ms),
            data: String::from_str("null"),
        }
    }

    /// A new step-failed event for the given step, carrying the error text.
    pub fn step_failed(step_id: Id, error: &str) -> (r: Self)
        ensures
            r.step_id == step_id,
            r@.event_type == EventTypeV::StepFailed,
            r.duration_ms is None,
            r.data@ == error@,
    {
        ExecutionEvent {
            id: fresh_id(),
            step_id,
            event_type: ExecutionEventType::StepFailed,
            timestamp: now_millis(),
            duration_ms: None,
            data: error.to_owned(),
        }
    }

    /// Replace the event's data payload.
    pub fn with_data(self, data: String) -> (r: Self)
        ensures
            r@ == (EventV { data: data@, ..self@ }),
    {
        ExecutionEvent { data, ..self }
    }

    /// An exact copy of this event.
    pub fn duplicate(&self) -> (r: Self)
        ensures
            r@ == self@,
    {
        ExecutionEvent {
            id: self.id,
            step_id: self.step_id,
            event_type: self.event_type.duplicate(),
            timestamp: self.timestamp,
            duration_ms: self.duration_ms,
            data: self.data.clone(),
        }
    }
}

/// Outcome of an intent execution.
#[derive(Debug, Clone, PartialEq, Eq)]
pub enum Outcome {
    /// Execution completed successfully.
    Success,
    /// Execution failed.
    Failure {
        /// The reason for failure.
        reason: String,
        /// Whether compensation was attempted.
        compensated: bool,
    },
    /// Execution partially succeeded.
    PartialSuccess {
        /// Percentage of steps that succeeded (0 to 100).
        success_rate: u8,
        /// Description of what succeeded and failed.
        details: String,
    },
    /// Execution was cancelled.
    Cancelled {
        /// Who cancelled (client, system, timeout).
        by: String,
        /// Reason for cancellation.
        reason: String,
    },
}

/// Mathematical value of an outcome.
#[verifier::ext_equal]
pub enum OutcomeV {
    /// See [`Outcome::Success`].
    Success,
    /// See [`Outcome::Failure`].
    Failure { reason: Seq<char>, compensated: bool },
    /// See [`Outcome::PartialSuccess`].
    PartialSuccess { success_rate: u8, details: Seq<char> },
    /// See [`Outcome::Cancelled`].
    Cancelled { by: Seq<char>, reason: Seq<char> },
}

impl View for Outcome {
    type V = OutcomeV;

    open spec fn view(&self) -> OutcomeV {
        match self {
            Outcome::Success => OutcomeV::Success,
            Outcome::Failure { reason, compensated } => OutcomeV::Failure {
                reason: reason@,
                compensated: *compensated,
            },
            Outcome::PartialSuccess { success_rate, details } => OutcomeV::PartialSuccess {
                success_rate: *success_rate,
                details: details@,
            },
            Outcome::Cancelled { by, reason } => OutcomeV::Cancelled {
                by: by@,
                reason: reason@,
            },
        }
    }
}

impl Outcome {
    /// Check if the outcome is successful.
    pub fn is_success(&self) -> (r: bool)
        ensures
            r == (self@ is Success),
    {
        matches!(self, Outcome::Success)
    }

    /// Check if the outcome is a failure.
    pub fn is_failure(&self) -> (r: bool)
        ensures
            r == (self@ is Failure),
    {
        matches!(self, Outcome::Failure { .. })
    }

    /// An exact copy of this outcome.
    pub fn duplicate(&self) -> (r: Self)
        ensures
            r@ == self@,
    {
        match self {
            Outcome::Success => Outcome::Success,
            Outcome::Failure { reason, compensated } => Outcome::Failure {
                reason: reason.clone(),
                compensated: *compensated,
            },
            Outcome::PartialSuccess { success_rate, details } => Outcome::PartialSuccess {
                success_rate: *success_rate,
                details: details.clone(),
            },
            Outcome::Cancelled { by, reason } => Outcome::Cancelled {
                by: by.clone(),
                reason: reason.clone(),
            },
        }
    }
}

/// Metadata about the execution environment.
#[derive(Debug, Clone)]
pub struct ExecutionMetadata {
    /// Node ID that executed the intent.
    pub node_id: String,
    /// Version of the executing node.
    pub node_version: String,
    /// Region where execution occurred.
    pub region: Option<String>,
    /// Additional metadata, as JSON text.
    pub extra: String,
}

impl ExecutionMetadata {
    /// Empty metadata: blank node fields, no region, null extra data.
    pub fn new() -> (r: Self)
        ensures
            r.node_id@ == Seq::<char>::empty(),
            r.node_version@ == Seq::<char>::empty(),
            r.region is None,
            r.extra@ == "null"@,
    {
        ExecutionMetadata {
            node_id: String::new(),
            node_version: String::new(),
            region: None,
            extra: String::from_str("null"),
        }
    }
}

/// SHA-256 leaf hashes of a trace, one per event, in order.
pub open spec fn leaves_of(tr: Seq<EventV>) -> Seq<Seq<u8>> {
    Seq::new(tr.len(), |i: int| sha256_of(event_bytes(tr[i])))
}

/// One level up the Merkle tree: hashes combined pairwise; an odd hash at the
/// end is paired with itself.
pub open spec fn merkle_level(hs: Seq<Seq<u8>>) -> Seq<Seq<u8>> {
    Seq::new(
        (hs.len() + 1) / 2,
        |i: int| if 2 * i + 1 < hs.len() {
            sha256_of(hs[2 * i] + hs[2 * i + 1])
        } else {
            sha256_of(hs[2 * i] + hs[2 * i])
        },
    )
}

/// The Merkle root of a non-empty sequence of hashes: combine levels until
/// one hash is left.
pub open spec fn merkle_root_of(hs: Seq<Seq<u8>>) -> Seq<u8>
    decreases hs.len(),
{
    if hs.len() <= 1 {
        if hs.len() == 1 {
            hs[0]
        } else {
            Seq::empty()
        }
    } else {
        merkle_root_of(merkle_level(hs))
    }
}

/// The root of an empty trace: sixty-four zero characters.
pub open spec fn zero_root() -> Seq<char> {
    "0000000000000000000000000000000000000000000000000000000000000000"@
}

/// The hex-encoded Merkle root of a trace; the zero root for an empty trace.
pub open spec fn merkle_root_hex(tr: Seq<EventV>) -> Seq<char> {
    if tr.len() == 0 {
        zero_root()
    } else {
        hex_of(merkle_root_of(leaves_of(tr)))
    }
}

fn sha256_pair(a: &Vec<u8>, b: &Vec<u8>) -> (r: Vec<u8>)
    ensures
        r@ == sha256_of(a@ + b@),
        r@.len() == 32,
{
    let mut buf: Vec<u8> = Vec::new();
    let mut i: usize = 0;
    while i < a.len()
        invariant
            i <= a@.len(),
            buf@ == a@.subrange(0, i as int),
        decreases a@.len() - i,
    {
        buf.push(a[i]);
        proof {
            assert(buf@ =~= a@.subrange(0, i + 1));
        }
        i = i + 1;
    }
    proof {
        assert(a@.subrange(0, a@.len() as int) =~= a@);
    }
    let mut j: usize = 0;
    while j < b.len()
        invariant
            j <= b@.len(),
            buf@ == a@ + b@.subrange(0, j as int),
        decreases b@.len() - j,
    {
        buf.push(b[j]);
        proof {
            assert(buf@ =~= a@ + b@.subrange(0, j + 1));
        }
        j = j + 1;
    }
    proof {
        assert(a@ + b@.subrange(0, b@.len() as int) =~= a@ + b@);
    }
    sha256(buf.as_slice())
}

/// The events of a trace that satisfy a predicate, in order.
pub open spec fn select_events(tr: Seq<EventV>, p: spec_fn(EventV) -> bool) -> Seq<EventV>
    decreases tr.len(),
{
    if tr.len() == 0 {
        Seq::empty()
    } else {
        select_events(tr.drop_last(), p)
            + if p(tr.last()) { seq![tr.last()] } else { Seq::empty() }
    }
}

/// Extending a prefix of a trace by one event extends its selection.
pub proof fn lemma_select_events_step(tr: Seq<EventV>, p: spec_fn(EventV) -> bool, i: int)
    requires
        0 <= i < tr.len(),
    ensures
        select_events(tr.subrange(0, i + 1), p) == select_events(tr.subrange(0, i), p)
            + if p(tr[i]) { seq![tr[i]] } else { Seq::empty() },
{
    let ext = tr.subrange(0, i + 1);
    assert(ext.drop_last() =~= tr.subrange(0, i));
    assert(ext.last() == tr[i]);
}

/// Merkle soundness: on every artifact whose root commits to its trace — as
/// holds after `ExecutionArtifact::new` and after every `add_event`, by their
/// contracts — `verify_merkle_root` succeeds. The recomputed root is a pure
/// function of the trace, so the check also survives any copy that preserves
/// the trace and root fields.
pub proof fn lemma_committed_root_verifies(a: ExecutionArtifact, b: ExecutionArtifact)
    requires
        a.merkle_wf(),
        event_views(b.trace@) == event_views(a.trace@),
        b.merkle_root@ == a.merkle_root@,
    ensures
        b.merkle_wf(),
{
}

/// The execution artifact: the immutable record of an intent's execution.
#[derive(Debug, Clone)]
pub struct ExecutionArtifact {
    /// Unique identifier for this artifact.
    pub id: Id,
    /// The original intent that was fulfilled.
    pub intent: Intent,
    /// The final plan that was executed.
    pub final_plan: Plan,
    /// Trace of all execution events, in append order.
    pub trace: Vec<ExecutionEvent>,
    /// The outcome of the execution.
    pub outcome: Outcome,
    /// When the artifact was created (milliseconds since the epoch).
    pub timestamp: i64,
    /// Merkle root of the execution trace, lowercase hex.
    pub merkle_root: String,
    /// Total actual cost incurred, in hundredths of a unit.
    pub actual_cost: u64,
    /// Total actual duration in milliseconds.
    pub actual_duration_ms: u64,
    /// Metadata about the execution environment.
    pub execution_metadata: ExecutionMetadata,
}

/// Mathematical value of the execution metadata.
#[verifier::ext_equal]
pub struct MetadataV {
    /// See [`ExecutionMetadata::node_id`].
    pub node_id: Seq<char>,
    /// See [`ExecutionMetadata::node_version`].
    pub node_version: Seq<char>,
    /// See [`ExecutionMetadata::region`].
    pub region: Option<Seq<char>>,
    /// See [`ExecutionMetadata::extra`].
    pub extra: Seq<char>,
}

impl View for ExecutionMetadata {
    type V = MetadataV;

    open spec fn view(&self) -> MetadataV {
        MetadataV {
            node_id: self.node_id@,
            node_version: self.node_version@,
            region: match &self.region {
                Option::Some(r) => Option::Some(r@),
                Option::None => Option::None,
            },
            extra: self.extra@,
        }
    }
}

/// Mathematical value of an execution artifact.
#[verifier::ext_equal]
pub struct ArtifactV {
    /// See [`ExecutionArtifact::id`].
    pub id: Id,
    /// See [`ExecutionArtifact::intent`].
    pub intent: IntentV,
    /// See [`ExecutionArtifact::final_plan`].
    pub final_plan: PlanV,
    /// See [`ExecutionArtifact::trace`].
    pub trace: Seq<EventV>,
    /// See [`ExecutionArtifact::outcome`].
    pub outcome: OutcomeV,
    /// See [`ExecutionArtifact::timestamp`].
    pub timestamp: i64,
    /// See [`ExecutionArtifact::merkle_root`].
    pub merkle_root: Seq<char>,
    /// See [`ExecutionArtifact::actual_cost`].
    pub actual_cost: u64,
    /// See [`ExecutionArtifact::actual_duration_ms`].
    pub actual_duration_ms: u64,
    /// See [`ExecutionArtifact::execution_metadata`].
    pub execution_metadata: MetadataV,
}

impl View for ExecutionArtifact {
    type V = ArtifactV;

    open spec fn view(&self) -> ArtifactV {
        ArtifactV {
            id: self.id,
            intent: self.intent@,
            final_plan: self.final_plan@,
            trace: event_views(self.trace@),
            outcome: self.outcome@,
            timestamp: self.timestamp,
            merkle_root: self.merkle_root@,
            actual_cost: self.actual_cost,
            actual_duration_ms: self.actual_duration_ms,
            execution_metadata: self.execution_metadata@,
        }
    }
}

impl DeepView for ExecutionArtifact {
    type V = ArtifactV;

    open spec fn deep_view(&self) -> ArtifactV {
        self.view()
    }
}

impl ExecutionArtifact {
    /// The artifact's Merkle root commits to its trace.
    pub open spec fn merkle_wf(self) -> bool {
        self.merkle_root@ == merkle_root_hex(event_views(self.trace@))
    }

    /// Create a new execution artifact with an empty trace. Its Merkle root
    /// is the zero root, which commits to the empty trace.
    pub fn new(intent: Intent, plan: Plan, outcome: Outcome) -> (r: Self)
        ensures
            r.intent@ == intent@,
            r.final_plan@ == plan@,
            r.trace@.len() == 0,
            r.outcome@ == outcome@,
            r.actual_cost == 0u64,
            r.actual_duration_ms == 0u64,
            r.merkle_wf(),
    {
        let r = ExecutionArtifact {
            id: fresh_id(),
            intent,
            final_plan: plan,
            trace: Vec::new(),
            outcome,
            timestamp: now_millis(),
            merkle_root: String::from_str(
                "0000000000000000000000000000000000000000000000000000000000000000",
            ),
            actual_cost: 0,
            actual_duration_ms: 0,
            execution_metadata: ExecutionMetadata::new(),
        };
        proof {
            assert(event_views(r.trace@) =~= Seq::<EventV>::empty());
        }
        r
    }

    /// Compute the Merkle root of the execution trace: each event's canonical
    /// bytes are hashed into a leaf; leaves combine pairwise (an odd hash
    /// pairs with itself) until one hash is left, which is hex-encoded. The
    /// empty trace yields the zero root.
    pub fn compute_merkle_root(&self) -> (r: String)
        ensures
            r@ == merkle_root_hex(event_views(self.trace@)),
            r@.len() == 64,
    {
        let ghost tr = event_views(self.trace@);
        if self.trace.len() == 0 {
            proof {
                reveal_strlit(
                    "0000000000000000000000000000000000000000000000000000000000000000",
                );
            }
            return String::from_str(
                "0000000000000000000000000000000000000000000000000000000000000000",
            );
        }

        let mut level: Vec<Vec<u8>> = Vec::new();
        let mut i: usize = 0;
        proof {
            assert(level.deep_view() =~~= leaves_of(tr.subrange(0, 0)));
        }
        while i < self.trace.len()
            invariant
                i <= self.trace@.len(),
                tr == event_views(self.trace@),
                tr.len() == self.trace@.len(),
                level.deep_view() == leaves_of(tr.subrange(0, i as int)),
                forall|k: int| 0 <= k < level.deep_view().len()
                    ==> (#[trigger] level.deep_view()[k]).len() == 32,
            decreases self.trace@.len() - i,
        {
            let bytes = self.trace[i].canonical_bytes();
            let leaf = sha256(bytes.as_slice());
            let ghost pre = level.deep_view();
            let ghost leaf_view = leaf@;
            level.push(leaf);
            proof {
                let post = level.deep_view();
                let rhs = leaves_of(tr.subrange(0, i + 1));
                assert(post.len() == pre.len() + 1);
                assert(forall|k: int| 0 <= k < pre.len() ==> #[trigger] post[k] == pre[k]);
                assert(post[i as int] =~= leaf_view);
                assert(post.len() == rhs.len());
                assert(forall|k: int| 0 <= k < i
                    ==> #[trigger] rhs[k] == leaves_of(tr.subrange(0, i as int))[k]);
                assert(rhs[i as int] == sha256_of(event_bytes(tr[i as int])));
                assert(post =~~= rhs);
            }
            i = i + 1;
        }
        proof {
            assert(tr.subrange(0, tr.len() as int) =~= tr);
        }

        while level.len() > 1
            invariant
                level.deep_view().len() >= 1,
                merkle_root_of(level.deep_view()) == merkle_root_of(leaves_of(tr)),
                tr.len() > 0,
                forall|k: int| 0 <= k < level.deep_view().len()
                    ==> (#[trigger] level.deep_view()[k]).len() == 32,
            decreases level@.len(),
        {
            let ghost hs = level.deep_view();
            let len = level.len();
            let mut next: Vec<Vec<u8>> = Vec::new();
            let mut j: usize = 0;
            proof {
                assert(next.deep_view() =~~= merkle_level(hs).subrange(0, 0));
            }
            while j < len
                invariant
                    hs == level.deep_view(),
                    hs.len() == level@.len(),
                    len == level@.len(),
                    hs.len() > 1,
                    j <= len,
                    2 * next@.len() == j || (j == len && 2 * next@.len() == len + 1),
                    next.deep_view() == merkle_level(hs).subrange(0, next@.len() as int),
                    forall|k: int| 0 <= k < next.deep_view().len()
                        ==> (#[trigger] next.deep_view()[k]).len() == 32,
                decreases len - j,
            {
                let ghost m = next@.len() as int;
                proof {
                    assert(2 * m == j);
                }
                let combined = if j + 1 < len {
                    sha256_pair(&level[j], &level[j + 1])
                } else {
                    sha256_pair(&level[j], &level[j])
                };
                proof {
                    assert(hs[2 * m] == level@[j as int].deep_view());
                    assert(level@[j as int].deep_view() =~= level@[j as int]@);
                    if j + 1 < len {
                        assert(hs[2 * m + 1] == level@[j as int + 1].deep_view());
                        assert(level@[j as int + 1].deep_view() =~= level@[j as int + 1]@);
                    }
                    assert(combined@ == merkle_level(hs)[m]);
                }
                next.push(combined);
                proof {
                    assert(next.deep_view() =~~= merkle_level(hs).subrange(0, m + 1));
                }
                if j + 1 < len {
                    j = j + 2;
                } else {
                    j = len;
                }
            }
            proof {
                assert(next.deep_view() =~= merkle_level(hs).subrange(
                    0,
                    merkle_level(hs).len() as int,
                ));
                assert(next.deep_view() =~= merkle_level(hs));
            }
            level = next;
        }

        let root = hex_encode(level[0].as_slice());
        proof {
            assert(level.deep_view()[0] == level@[0].deep_view());
            assert(level@[0].deep_view() =~= level@[0]@);
            assert(merkle_root_of(level.deep_view()) == level.deep_view()[0]);
            crate::hashing::lemma_hex_of_len(level@[0]@);
        }
        root
    }

    /// Verify the Merkle root matches the trace.
    pub fn verify_merkle_root(&self) -> (r: bool)
        ensures
            r == self.merkle_wf(),
    {
        let computed = self.compute_merkle_root();
        self.merkle_root == computed
    }

    /// Append an execution event to the trace: the event's duration, if any,
    /// is added to the running total (saturating), and the Merkle root is
    /// recomputed so it commits to the extended trace.
    pub fn add_event(&mut self, event: ExecutionEvent)
        ensures
            final(self).trace@.len() == old(self).trace@.len() + 1,
            event_views(final(self).trace@)
                == event_views(old(self).trace@).push(event@),
            final(self).merkle_wf(),
            final(self).actual_duration_ms as int == match event.duration_ms {
                Option::Some(d) => if old(self).actual_duration_ms + d <= u64::MAX {
                    old(self).actual_duration_ms + d
                } else {
                    u64::MAX as int
                },
                Option::None => old(self).actual_duration_ms as int,
            },
            final(self).id == old(self).id,
            final(self).intent@ == old(self).intent@,
            final(self).final_plan@ == old(self).final_plan@,
            final(self).outcome@ == old(self).outcome@,
            final(self).timestamp == old(self).timestamp,
            final(self).actual_cost == old(self).actual_cost,
    {
        match event.duration_ms {
            Some(d) => {
                if self.actual_duration_ms <= u64::MAX - d {
                    self.actual_duration_ms = self.actual_duration_ms + d;
                } else {
                    self.actual_duration_ms = u64::MAX;
                }
            }
            None => {}
        }
        self.trace.push(event);
        let root = self.compute_merkle_root();
        self.merkle_root = root;
        proof {
            assert(event_views(self.trace@)
                =~= event_views(old(self).trace@).push(event@));
        }
    }

    /// The events of the trace that record failed steps, in order.
    #[verifier::rlimit(30)]
    pub fn failed_steps(&self) -> (r: Vec<ExecutionEvent>)
        ensures
            event_views(r@) == select_events(
                event_views(self.trace@),
                |e: EventV| e.event_type is StepFailed,
            ),
    {
        let ghost tr = event_views(self.trace@);
        let ghost p = |e: EventV| e.event_type is StepFailed;
        let mut out: Vec<ExecutionEvent> = Vec::new();
        let mut i: usize = 0;
        proof {
            assert(event_views(out@) =~= select_events(tr.subrange(0, 0), p));
        }
        while i < self.trace.len()
            invariant
                i <= self.trace@.len(),
                tr == event_views(self.trace@),
                tr.len() == self.trace@.len(),
                event_views(out@) == select_events(tr.subrange(0, i as int), p),
                p == (|e: EventV| e.event_type is StepFailed),
            decreases self.trace@.len() - i,
        {
            let matches_p = match &self.trace[i].event_type {
                ExecutionEventType::StepFailed => true,
                _ => false,
            };
            if matches_p {
                out.push(self.trace[i].duplicate());
            }
            proof {
                lemma_select_events_step(tr, p, i as int);
                assert(event_views(out@) =~= select_events(tr.subrange(0, i + 1), p));
            }
            i = i + 1;
        }
        proof {
            assert(tr.subrange(0, tr.len() as int) =~= tr);
        }
        out
    }

    /// The events of the trace that record completed steps, in order.
    #[verifier::rlimit(30)]
    pub fn successful_steps(&self) -> (r: Vec<ExecutionEvent>)
        ensures
            event_views(r@) == select_events(
                event_views(self.trace@),
                |e: EventV| e.event_type is StepCompleted,
            ),
    {
        let ghost tr = event_views(self.trace@);
        let ghost p = |e: EventV| e.event_type is StepCompleted;
        let mut out: Vec<ExecutionEvent> = Vec::new();
        let mut i: usize = 0;
        proof {
            assert(event_views(out@) =~= select_events(tr.subrange(0, 0), p));
        }
        while i < self.trace.len()
            invariant
                i <= self.trace@.len(),
                tr == event_views(self.trace@),
                tr.len() == self.trace@.len(),
                event_views(out@) == select_events(tr.subrange(0, i as int), p),
                p == (|e: EventV| e.event_type is StepCompleted),
            decreases self.trace@.len() - i,
        {
            let matches_p = match &self.trace[i].event_type {
                ExecutionEventType::StepCompleted => true,
                _ => false,
            };
            if matches_p {
                out.push(self.trace[i].duplicate());
            }
            proof {
                lemma_select_events_step(tr, p, i as int);
                assert(event_views(out@) =~= select_events(tr.subrange(0, i + 1), p));
            }
            i = i + 1;
        }
        proof {
            assert(tr.subrange(0, tr.len() as int) =~= tr);
        }
        out
    }

    /// The share of completed steps among completed and failed ones, as a
    /// percentage (0 when the trace records neither).
    pub fn success_rate(&self) -> (r: u8)
        ensures
            ({
                let completed = select_events(
                    event_views(self.trace@),
                    |e: EventV| e.event_type is StepCompleted,
                ).len();
                let failed = select_events(
                    event_views(self.trace@),
                    |e: EventV| e.event_type is StepFailed,
                ).len();
                r as int == if completed + failed == 0 {
                    0
                } else {
                    completed * 100 / (completed + failed)
                }
            }),
    {
        let completed_events = self.successful_steps();
        let failed_events = self.failed_steps();
        let completed = completed_events.len();
        let failed = failed_events.len();
        let ghost ctr = select_events(
            event_views(self.trace@),
            |e: EventV| e.event_type is StepCompleted,
        );
        let ghost ftr = select_events(
            event_views(self.trace@),
            |e: EventV| e.event_type is StepFailed,
        );
        proof {
            assert(completed == ctr.len());
            assert(failed == ftr.len());
        }
        if completed == 0 && failed == 0 {
            return 0;
        }
        let c = completed as u128;
        let f = failed as u128;
        let rate = (c * 100) / (c + f);
        proof {
            assert(c * 100 / (c + f) <= 100) by (nonlinear_arith)
                requires c + f >= 1;
        }
        rate as u8
    }
}

} // verus!
