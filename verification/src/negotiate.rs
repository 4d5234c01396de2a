//! The negotiation session: a round-limited proposal/counter dialogue over an
//! intent. Outgoing protocol messages are queued on the session; the
//! transport drains and delivers them.

use vstd::prelude::*;

use crate::clock::now_millis;
use crate::errors::OrpheonError;
use crate::ids::{Id, fresh_id};
use crate::intent::Intent;
use crate::plan::{Plan, PlanV};

verus! {

/// State of a negotiation session.
#[derive(Debug, Clone, Copy, PartialEq, Eq, Structural)]
pub enum NegotiationState {
    /// Waiting for the initial proposal.
    Pending,
    /// Proposal sent, waiting for the client's response.
    ProposalSent,
    /// Client countered; re-planning.
    Countered,
    /// Client accepted the proposal.
    Accepted,
    /// Negotiation rejected or failed.
    Rejected,
    /// Negotiation timed out.
    TimedOut,
    /// Execution has begun.
    Executing,
}

/// An SLA guarantee offered in a proposal. The threshold and penalty are in
/// hundredths of their unit.
#[derive(Debug, Clone)]
pub struct SlaGuarantee {
    /// The metric being guaranteed (e.g. "uptime", "latency_p99").
    pub metric: String,
    /// The threshold value, in hundredths of the unit.
    pub threshold: u64,
    /// Unit of measurement.
    pub unit: String,
    /// Penalty if the SLA is not met, in hundredths of a currency unit.
    pub penalty: Option<u64>,
}

/// Mathematical value of an SLA guarantee.
#[verifier::ext_equal]
pub struct SlaGuaranteeV {
    /// See [`SlaGuarantee::metric`].
    pub metric: Seq<char>,
    /// See [`SlaGuarantee::threshold`].
    pub threshold: u64,
    /// See [`SlaGuarantee::unit`].
    pub unit: Seq<char>,
    /// See [`SlaGuarantee::penalty`].
    pub penalty: Option<u64>,
}

impl View for SlaGuarantee {
    type V = SlaGuaranteeV;

    open spec fn view(&self) -> SlaGuaranteeV {
        SlaGuaranteeV {
            metric: self.metric@,
            threshold: self.threshold,
            unit: self.unit@,
            penalty: self.penalty,
        }
    }
}

impl DeepView for SlaGuarantee {
    type V = SlaGuaranteeV;

    open spec fn deep_view(&self) -> SlaGuaranteeV {
        self.view()
    }
}

/// A proposal from the node to the client.
#[derive(Debug, Clone)]
pub struct Proposal {
    /// Unique ID for this proposal.
    pub id: Id,
    /// The intent being negotiated.
    pub intent_id: Id,
    /// The proposed plan.
    pub plan: Plan,
    /// Quoted cost for execution, in hundredths of a unit.
    pub quoted_cost: u64,
    /// Currency for the cost.
    pub currency: String,
    /// Estimated latency in milliseconds.
    pub estimated_latency_ms: u64,
    /// Guaranteed SLA metrics.
    pub sla_guarantees: Vec<SlaGuarantee>,
    /// When this proposal expires (milliseconds since the epoch).
    pub expires_at: i64,
    /// Proposal version (for counter-offers).
    pub version: u32,
    /// Metadata, as JSON text.
    pub metadata: String,
}

/// Mathematical value of a proposal.
#[verifier::ext_equal]
pub struct ProposalV {
    /// See [`Proposal::id`].
    pub id: Id,
    /// See [`Proposal::intent_id`].
    pub intent_id: Id,
    /// See [`Proposal::plan`].
    pub plan: PlanV,
    /// See [`Proposal::quoted_cost`].
    pub quoted_cost: u64,
    /// See [`Proposal::currency`].
    pub currency: Seq<char>,
    /// See [`Proposal::estimated_latency_ms`].
    pub estimated_latency_ms: u64,
    /// See [`Proposal::sla_guarantees`].
    pub sla_guarantees: Seq<SlaGuaranteeV>,
    /// See [`Proposal::expires_at`].
    pub expires_at: i64,
    /// See [`Proposal::version`].
    pub version: u32,
    /// See [`Proposal::metadata`].
    pub metadata: Seq<char>,
}

impl View for Proposal {
    type V = ProposalV;

    open spec fn view(&self) -> ProposalV {
        ProposalV {
            id: self.id,
            intent_id: self.intent_id,
            plan: self.plan@,
            quoted_cost: self.quoted_cost,
            currency: self.currency@,
            estimated_latency_ms: self.estimated_latency_ms,
            sla_guarantees: self.sla_guarantees.deep_view(),
            expires_at: self.expires_at,
            version: self.version,
            metadata: self.metadata@,
        }
    }
}

impl Proposal {
    /// A new proposal quoting the plan's estimates, expiring five minutes
    /// after the given instant, at version one, in USD.
    pub fn new_at(intent_id: Id, plan: Plan, now_ms: i64) -> (r: Self)
        ensures
            r.intent_id == intent_id,
            r.plan@ == plan@,
            r.quoted_cost == plan.estimated_cost,
            r.currency@ == "USD"@,
            r.estimated_latency_ms == plan.estimated_latency_ms,
            r@.sla_guarantees == Seq::<SlaGuaranteeV>::empty(),
            r.expires_at == if now_ms + 300_000 <= i64::MAX { now_ms + 300_000 } else { i64::MAX as int },
            r.version == 1u32,
            r.metadata@ == "null"@,
    {
        let expires_at: i64 = if now_ms <= i64::MAX - 300_000 {
            now_ms + 300_000
        } else {
            i64::MAX
        };
        let quoted_cost = plan.estimated_cost;
        let estimated_latency_ms = plan.estimated_latency_ms;
        let r = Proposal {
            id: fresh_id(),
            intent_id,
            plan,
            quoted_cost,
            currency: String::from_str("USD"),
            estimated_latency_ms,
            sla_guarantees: Vec::new(),
            expires_at,
            version: 1,
            metadata: String::from_str("null"),
        };
        proof {
            assert(r@.sla_guarantees =~~= Seq::<SlaGuaranteeV>::empty());
        }
        r
    }

    /// A new proposal quoting the plan's estimates, expiring five minutes
    /// from now.
    pub fn new(intent_id: Id, plan: Plan) -> (r: Self)
        ensures
            r.intent_id == intent_id,
            r.plan@ == plan@,
            r.quoted_cost == plan.estimated_cost,
            r.currency@ == "USD"@,
            r.estimated_latency_ms == plan.estimated_latency_ms,
            r@.sla_guarantees == Seq::<SlaGuaranteeV>::empty(),
            r.version == 1u32,
            r.metadata@ == "null"@,
    {
        Proposal::new_at(intent_id, plan, now_millis())
    }

    /// Whether the proposal is expired at the given instant.
    pub fn is_expired_at(&self, now_ms: i64) -> (r: bool)
        ensures
            r == (now_ms > self.expires_at),
    {
        now_ms > self.expires_at
    }

    /// Check if the proposal has expired.
    pub fn is_expired(&self) -> bool {
        self.is_expired_at(now_millis())
    }

    /// Add an SLA guarantee, the threshold in hundredths of its unit.
    pub fn with_sla(self, metric: &str, threshold: u64, unit: &str) -> (r: Self)
        ensures
            r@.sla_guarantees.len() == self@.sla_guarantees.len() + 1,
            r@.sla_guarantees.last() == (SlaGuaranteeV {
                metric: metric@,
                threshold,
                unit: unit@,
                penalty: Option::None,
            }),
            r@.sla_guarantees.subrange(0, self@.sla_guarantees.len() as int)
                == self@.sla_guarantees,
            r.id == self.id,
            r.intent_id == self.intent_id,
            r.plan@ == self.plan@,
            r.quoted_cost == self.quoted_cost,
            r.estimated_latency_ms == self.estimated_latency_ms,
            r.expires_at == self.expires_at,
            r.version == self.version,
    {
        let mut s = self;
        s.sla_guarantees.push(SlaGuarantee {
            metric: metric.to_owned(),
            threshold,
            unit: unit.to_owned(),
            penalty: None,
        });
        proof {
            assert(s@.sla_guarantees.subrange(0, s@.sla_guarantees.len() - 1)
                =~~= s@.sla_guarantees.drop_last());
        }
        s
    }

    /// An exact copy of this proposal.
    pub fn duplicate(&self) -> (r: Self)
        ensures
            r@ == self@,
    {
        let mut slas: Vec<SlaGuarantee> = Vec::new();
        let mut i: usize = 0;
        while i < self.sla_guarantees.len()
            invariant
                i <= self.sla_guarantees@.len(),
                slas@.len() == i,
                forall|j: int| 0 <= j < i
                    ==> #[trigger] slas@[j]@ == self.sla_guarantees@[j]@,
            decreases self.sla_guarantees@.len() - i,
        {
            let g = &self.sla_guarantees[i];
            slas.push(SlaGuarantee {
                metric: g.metric.clone(),
                threshold: g.threshold,
                unit: g.unit.clone(),
                penalty: g.penalty,
            });
            i = i + 1;
        }
        let r = Proposal {
            id: self.id,
            intent_id: self.intent_id,
            plan: self.plan.duplicate(),
            quoted_cost: self.quoted_cost,
            currency: self.currency.clone(),
            estimated_latency_ms: self.estimated_latency_ms,
            sla_guarantees: slas,
            expires_at: self.expires_at,
            version: self.version,
            metadata: self.metadata.clone(),
        };
        proof {
            assert(r@.sla_guarantees =~~= self@.sla_guarantees);
        }
        r
    }
}

/// Adjustment to a preference; the weight is in thousandths.
#[derive(Debug, Clone)]
pub struct PreferenceAdjustment {
    /// The preference to adjust.
    pub objective: String,
    /// New weight, in thousandths (0 to 1000).
    pub weight: u32,
}

/// Mathematical value of a preference adjustment.
#[verifier::ext_equal]
pub struct PreferenceAdjustmentV {
    /// See [`PreferenceAdjustment::objective`].
    pub objective: Seq<char>,
    /// See [`PreferenceAdjustment::weight`].
    pub weight: u32,
}

impl View for PreferenceAdjustment {
    type V = PreferenceAdjustmentV;

    open spec fn view(&self) -> PreferenceAdjustmentV {
        PreferenceAdjustmentV { objective: self.objective@, weight: self.weight }
    }
}

impl DeepView for PreferenceAdjustment {
    type V = PreferenceAdjustmentV;

    open spec fn deep_view(&self) -> PreferenceAdjustmentV {
        self.view()
    }
}

/// A counter-offer from the client.
#[derive(Debug, Clone)]
pub struct CounterOffer {
    /// Reference to the proposal being countered.
    pub proposal_id: Id,
    /// Requested maximum cost, in hundredths of a unit.
    pub max_cost: Option<u64>,
    /// Requested maximum latency, in milliseconds.
    pub max_latency_ms: Option<u64>,
    /// Additional constraints to apply.
    pub additional_constraints: Vec<String>,
    /// Preferences to adjust.
    pub preference_adjustments: Vec<PreferenceAdjustment>,
    /// Message to the node.
    pub message: Option<String>,
}

/// Mathematical value of a counter-offer.
#[verifier::ext_equal]
pub struct CounterOfferV {
    /// See [`CounterOffer::proposal_id`].
    pub proposal_id: Id,
    /// See [`CounterOffer::max_cost`].
    pub max_cost: Option<u64>,
    /// See [`CounterOffer::max_latency_ms`].
    pub max_latency_ms: Option<u64>,
    /// See [`CounterOffer::additional_constraints`].
    pub additional_constraints: Seq<Seq<char>>,
    /// See [`CounterOffer::preference_adjustments`].
    pub preference_adjustments: Seq<PreferenceAdjustmentV>,
    /// See [`CounterOffer::message`].
    pub message: Option<Seq<char>>,
}

impl View for CounterOffer {
    type V = CounterOfferV;

    open spec fn view(&self) -> CounterOfferV {
        CounterOfferV {
            proposal_id: self.proposal_id,
            max_cost: self.max_cost,
            max_latency_ms: self.max_latency_ms,
            additional_constraints: self.additional_constraints.deep_view(),
            preference_adjustments: self.preference_adjustments.deep_view(),
            message: match &self.message {
                Option::Some(m) => Option::Some(m@),
                Option::None => Option::None,
            },
        }
    }
}

impl CounterOffer {
    /// A new counter-offer against a proposal, with nothing requested yet.
    pub fn new(proposal_id: Id) -> (r: Self)
        ensures
            r.proposal_id == proposal_id,
            r.max_cost is None,
            r.max_latency_ms is None,
            r@.additional_constraints == Seq::<Seq<char>>::empty(),
            r@.preference_adjustments == Seq::<PreferenceAdjustmentV>::empty(),
            r@.message is None,
    {
        let r = CounterOffer {
            proposal_id,
            max_cost: None,
            max_latency_ms: None,
            additional_constraints: Vec::new(),
            preference_adjustments: Vec::new(),
            message: None,
        };
        proof {
            assert(r@.additional_constraints =~~= Seq::<Seq<char>>::empty());
            assert(r@.preference_adjustments =~~= Seq::<PreferenceAdjustmentV>::empty());
        }
        r
    }

    /// Request a lower cost (hundredths of a unit).
    pub fn with_max_cost(self, cost: u64) -> (r: Self)
        ensures
            r@ == (CounterOfferV { max_cost: Option::Some(cost), ..self@ }),
    {
        CounterOffer { max_cost: Some(cost), ..self }
    }

    /// Request a lower latency.
    pub fn with_max_latency(self, latency_ms: u64) -> (r: Self)
        ensures
            r@ == (CounterOfferV { max_latency_ms: Option::Some(latency_ms), ..self@ }),
    {
        CounterOffer { max_latency_ms: Some(latency_ms), ..self }
    }

    /// Add a message.
    pub fn with_message(self, message: &str) -> (r: Self)
        ensures
            r@ == (CounterOfferV { message: Option::Some(message@), ..self@ }),
    {
        CounterOffer { message: Some(message.to_owned()), ..self }
    }

    /// An exact copy of this counter-offer.
    pub fn duplicate(&self) -> (r: Self)
        ensures
            r@ == self@,
    {
        let mut cs: Vec<String> = Vec::new();
        let mut i: usize = 0;
        while i < self.additional_constraints.len()
            invariant
                i <= self.additional_constraints@.len(),
                cs@.len() == i,
                forall|j: int| 0 <= j < i
                    ==> #[trigger] cs@[j]@ == self.additional_constraints@[j]@,
            decreases self.additional_constraints@.len() - i,
        {
            cs.push(self.additional_constraints[i].clone());
            i = i + 1;
        }
        let mut adjs: Vec<PreferenceAdjustment> = Vec::new();
        let mut k: usize = 0;
        while k < self.preference_adjustments.len()
            invariant
                k <= self.preference_adjustments@.len(),
                adjs@.len() == k,
                forall|j: int| 0 <= j < k
                    ==> #[trigger] adjs@[j]@ == self.preference_adjustments@[j]@,
            decreases self.preference_adjustments@.len() - k,
        {
            let a = &self.preference_adjustments[k];
            adjs.push(PreferenceAdjustment {
                objective: a.objective.clone(),
                weight: a.weight,
            });
            k = k + 1;
        }
        let r = CounterOffer {
            proposal_id: self.proposal_id,
            max_cost: self.max_cost,
            max_latency_ms: self.max_latency_ms,
            additional_constraints: cs,
            preference_adjustments: adjs,
            message: match &self.message {
                Some(m) => Some(m.clone()),
                None => None,
            },
        };
        proof {
            assert(r@.additional_constraints =~~= self@.additional_constraints);
            assert(r@.preference_adjustments =~~= self@.preference_adjustments);
        }
        r
    }
}

/// Message types of the negotiation protocol.
#[derive(Debug, Clone)]
pub enum NegotiationMessage {
    /// The node offers a plan to the client.
    Offer(Proposal),
    /// The client accepts the current proposal.
    Accept { proposal_id: Id },
    /// The client rejects the current proposal.
    Reject { proposal_id: Id, reason: String },
    /// The client counter-offers with modified constraints.
    Counter(CounterOffer),
    /// The node acknowledges acceptance and begins execution.
    Confirmed { proposal_id: Id, execution_id: Id },
    /// Negotiation failed.
    Failed { reason: String },
    /// Ping for keepalive.
    Ping { timestamp: i64 },
    /// Pong response for keepalive.
    Pong { timestamp: i64 },
}

/// Mathematical value of a negotiation message.
#[verifier::ext_equal]
pub enum NegotiationMessageV {
    /// See [`NegotiationMessage::Offer`].
    Offer(ProposalV),
    /// See [`NegotiationMessage::Accept`].
    Accept { proposal_id: Id },
    /// See [`NegotiationMessage::Reject`].
    Reject { proposal_id: Id, reason: Seq<char> },
    /// See [`NegotiationMessage::Counter`].
    Counter(CounterOfferV),
    /// See [`NegotiationMessage::Confirmed`].
    Confirmed { proposal_id: Id, execution_id: Id },
    /// See [`NegotiationMessage::Failed`].
    Failed { reason: Seq<char> },
    /// See [`NegotiationMessage::Ping`].
    Ping { timestamp: i64 },
    /// See [`NegotiationMessage::Pong`].
    Pong { timestamp: i64 },
}

impl View for NegotiationMessage {
    type V = NegotiationMessageV;

    open spec fn view(&self) -> NegotiationMessageV {
        match self {
            NegotiationMessage::Offer(p) => NegotiationMessageV::Offer(p@),
            NegotiationMessage::Accept { proposal_id } => NegotiationMessageV::Accept {
                proposal_id: *proposal_id,
            },
            NegotiationMessage::Reject { proposal_id, reason } => NegotiationMessageV::Reject {
                proposal_id: *proposal_id,
                reason: reason@,
            },
            NegotiationMessage::Counter(c) => NegotiationMessageV::Counter(c@),
            NegotiationMessage::Confirmed { proposal_id, execution_id } =>
                NegotiationMessageV::Confirmed {
                    proposal_id: *proposal_id,
                    execution_id: *execution_id,
                },
            NegotiationMessage::Failed { reason } => NegotiationMessageV::Failed {
                reason: reason@,
            },
            NegotiationMessage::Ping { timestamp } => NegotiationMessageV::Ping {
                timestamp: *timestamp,
            },
            NegotiationMessage::Pong { timestamp } => NegotiationMessageV::Pong {
                timestamp: *timestamp,
            },
        }
    }
}

impl DeepView for NegotiationMessage {
    type V = NegotiationMessageV;

    open spec fn deep_view(&self) -> NegotiationMessageV {
        self.view()
    }
}

/// A session may send another proposal while it has rounds left.
pub open spec fn send_allowed(round: u32, max_rounds: u32) -> bool {
    round < max_rounds
}

/// Round bound: a session that has used all its rounds cannot send another
/// proposal; the round after the last allowed send is exactly the bound.
pub proof fn lemma_round_bound(round: u32, max_rounds: u32)
    ensures
        round >= max_rounds ==> !send_allowed(round, max_rounds),
        send_allowed(round, max_rounds) && round + 1 == max_rounds as int + 0
            ==> !send_allowed((round + 1) as u32, max_rounds),
{
}

/// A negotiation session between client and node.
#[derive(Debug)]
pub struct NegotiationSession {
    /// Unique ID for this session.
    pub id: Id,
    /// The intent being negotiated.
    pub intent: Intent,
    /// Current state of the negotiation.
    pub state: NegotiationState,
    /// Current proposal (if any).
    pub current_proposal: Option<Proposal>,
    /// History of proposals, in send order.
    pub proposal_history: Vec<Proposal>,
    /// History of counter-offers, in arrival order.
    pub counter_history: Vec<CounterOffer>,
    /// When the session started (milliseconds since the epoch).
    pub started_at: i64,
    /// When the session times out (milliseconds since the epoch).
    pub timeout_at: i64,
    /// Maximum number of negotiation rounds.
    pub max_rounds: u32,
    /// Current round number.
    pub round: u32,
    /// Outgoing messages, queued for the transport to drain in order.
    pub outgoing: Vec<NegotiationMessage>,
}

impl NegotiationSession {
    /// A session never uses more rounds than it was given.
    pub open spec fn wf(self) -> bool {
        self.round <= self.max_rounds
    }

    /// A new session over an intent, starting at the given instant, timing
    /// out after the given number of seconds, with the given round bound.
    pub fn new_at(intent: Intent, now_ms: i64, timeout_seconds: u64, max_rounds: u32) -> (r: Self)
        ensures
            r.intent@ == intent@,
            r.state == NegotiationState::Pending,
            r.current_proposal is None,
            r.proposal_history@.len() == 0,
            r.counter_history@.len() == 0,
            r.started_at == now_ms,
            r.timeout_at as int == if now_ms + timeout_seconds * 1000 <= i64::MAX {
                now_ms + timeout_seconds * 1000
            } else {
                i64::MAX as int
            },
            r.max_rounds == max_rounds,
            r.round == 0u32,
            r.outgoing@.len() == 0,
            r.wf(),
    {
        let t: i128 = now_ms as i128 + (timeout_seconds as i128) * 1000;
        let timeout_at: i64 = if t > i64::MAX as i128 {
            i64::MAX
        } else {
            t as i64
        };
        NegotiationSession {
            id: fresh_id(),
            intent,
            state: NegotiationState::Pending,
            current_proposal: None,
            proposal_history: Vec::new(),
            counter_history: Vec::new(),
            started_at: now_ms,
            timeout_at,
            max_rounds,
            round: 0,
            outgoing: Vec::new(),
        }
    }

    /// A new session over an intent, starting now.
    pub fn new(intent: Intent, timeout_seconds: u64, max_rounds: u32) -> (r: Self)
        ensures
            r.intent@ == intent@,
            r.state == NegotiationState::Pending,
            r.current_proposal is None,
            r.proposal_history@.len() == 0,
            r.counter_history@.len() == 0,
            r.max_rounds == max_rounds,
            r.round == 0u32,
            r.outgoing@.len() == 0,
            r.wf(),
    {
        NegotiationSession::new_at(intent, now_millis(), timeout_seconds, max_rounds)
    }

    /// The current state of the negotiation.
    pub fn state(&self) -> (r: NegotiationState)
        ensures
            r == self.state,
    {
        self.state
    }

    /// The current proposal, if any.
    pub fn current_proposal(&self) -> (r: Option<Proposal>)
        ensures
            match self.current_proposal {
                Option::Some(p) => r matches Some(x) && x@ == p@,
                Option::None => r is None,
            },
    {
        match &self.current_proposal {
            Some(p) => Some(p.duplicate()),
            None => None,
        }
    }

    /// The current round number.
    pub fn current_round(&self) -> (r: u32)
        ensures
            r == self.round,
    {
        self.round
    }

    /// Whether the session is timed out at the given instant.
    pub fn is_timed_out_at(&self, now_ms: i64) -> (r: bool)
        ensures
            r == (now_ms > self.timeout_at),
    {
        now_ms > self.timeout_at
    }

    /// Check if the session has timed out.
    pub fn is_timed_out(&self) -> bool {
        self.is_timed_out_at(now_millis())
    }

    /// Send a proposal for the given plan, expiring five minutes after the
    /// given instant. Fails with a negotiation rejection, changing nothing,
    /// exactly when the session has no rounds left; otherwise the round
    /// advances, the proposal becomes current at a version of one plus the
    /// counter rounds seen so far, it joins the history, an offer is queued,
    /// and the session moves to ProposalSent.
    pub fn send_proposal_at(&mut self, plan: Plan, now_ms: i64) -> (r: Result<
        Proposal,
        OrpheonError,
    >)
        requires
            old(self).wf(),
        ensures
            final(self).wf(),
            r is Ok <==> send_allowed(old(self).round, old(self).max_rounds),
            !send_allowed(old(self).round, old(self).max_rounds) ==> {
                &&& (r matches Err(e) && e matches OrpheonError::NegotiationRejected {
                    intent_id,
                    reason,
                } && intent_id == old(self).intent.id
                    && reason@ == "Maximum negotiation rounds exceeded"@)
                &&& *final(self) == *old(self)
            },
            r matches Ok(p) ==> {
                &&& final(self).round == old(self).round + 1
                &&& p.intent_id == old(self).intent.id
                &&& p.plan@ == plan@
                &&& p.quoted_cost == plan.estimated_cost
                &&& p.estimated_latency_ms == plan.estimated_latency_ms
                &&& p.version as int == if 1 + old(self).counter_history@.len() as int <= u32::MAX {
                    1 + old(self).counter_history@.len() as int
                } else {
                    u32::MAX as int
                }
                &&& (final(self).current_proposal matches Some(c) && c@ == p@)
                &&& final(self).proposal_history.deep_view()
                    == old(self).proposal_history.deep_view().push(p@)
                &&& final(self).outgoing.deep_view()
                    == old(self).outgoing.deep_view().push(NegotiationMessageV::Offer(p@))
                &&& final(self).state == NegotiationState::ProposalSent
                &&& final(self).max_rounds == old(self).max_rounds
                &&& final(self).intent@ == old(self).intent@
                &&& final(self).counter_history@ == old(self).counter_history@
                &&& final(self).timeout_at == old(self).timeout_at
            },
    {
        if self.round >= self.max_rounds {
            return Err(OrpheonError::NegotiationRejected {
                intent_id: self.intent.id,
                reason: String::from_str("Maximum negotiation rounds exceeded"),
            });
        }

        self.round = self.round + 1;

        let mut proposal = Proposal::new_at(self.intent.id, plan, now_ms);
        let rounds = self.counter_history.len();
        proposal.version = if rounds < (u32::MAX - 1) as usize {
            (rounds + 1) as u32
        } else {
            u32::MAX
        };
        let dup1 = proposal.duplicate();
        let dup2 = proposal.duplicate();
        let ghost pv = proposal@;

        self.current_proposal = Some(dup1);
        let ghost hist = self.proposal_history.deep_view();
        self.proposal_history.push(dup2);
        let ghost msgs = self.outgoing.deep_view();
        self.outgoing.push(NegotiationMessage::Offer(proposal.duplicate()));
        self.state = NegotiationState::ProposalSent;
        proof {
            assert(self.proposal_history.deep_view() =~~= hist.push(pv));
            assert(self.outgoing.deep_view()
                =~~= msgs.push(NegotiationMessageV::Offer(pv)));
        }
        Ok(proposal)
    }

    /// Send a proposal for the given plan, expiring five minutes from now.
    pub fn send_proposal(&mut self, plan: Plan) -> (r: Result<Proposal, OrpheonError>)
        requires
            old(self).wf(),
        ensures
            final(self).wf(),
            r is Ok <==> send_allowed(old(self).round, old(self).max_rounds),
            !send_allowed(old(self).round, old(self).max_rounds) ==> {
                &&& (r matches Err(e) && e matches OrpheonError::NegotiationRejected {
                    intent_id,
                    reason,
                } && intent_id == old(self).intent.id
                    && reason@ == "Maximum negotiation rounds exceeded"@)
                &&& *final(self) == *old(self)
            },
            r matches Ok(p) ==> {
                &&& final(self).round == old(self).round + 1
                &&& p.intent_id == old(self).intent.id
                &&& p.plan@ == plan@
                &&& p.quoted_cost == plan.estimated_cost
                &&& p.version as int == if 1 + old(self).counter_history@.len() as int <= u32::MAX {
                    1 + old(self).counter_history@.len() as int
                } else {
                    u32::MAX as int
                }
                &&& (final(self).current_proposal matches Some(c) && c@ == p@)
                &&& final(self).proposal_history.deep_view()
                    == old(self).proposal_history.deep_view().push(p@)
                &&& final(self).outgoing.deep_view()
                    == old(self).outgoing.deep_view().push(NegotiationMessageV::Offer(p@))
                &&& final(self).state == NegotiationState::ProposalSent
                &&& final(self).max_rounds == old(self).max_rounds
            },
    {
        let now = now_millis();
        self.send_proposal_at(plan, now)
    }

    /// Accept the current proposal at the given instant. Fails with a
    /// negotiation rejection, changing nothing, when there is no current
    /// proposal, when the id does not match it, or when it has expired;
    /// otherwise the session moves to Accepted and queues a confirmation
    /// carrying a fresh execution id, which is returned.
    pub fn accept_at(&mut self, proposal_id: Id, now_ms: i64) -> (r: Result<Id, OrpheonError>)
        requires
            old(self).wf(),
        ensures
            final(self).wf(),
            old(self).current_proposal is None ==> {
                &&& (r matches Err(e) && e matches OrpheonError::NegotiationRejected {
                    intent_id,
                    reason,
                } && intent_id == old(self).intent.id
                    && reason@ == "No active proposal to accept"@)
                &&& *final(self) == *old(self)
            },
            (old(self).current_proposal matches Some(c) && c.id != proposal_id) ==> {
                &&& (r matches Err(e) && e matches OrpheonError::NegotiationRejected {
                    intent_id,
                    reason,
                } && intent_id == old(self).intent.id
                    && reason@ == "Proposal ID mismatch"@)
                &&& *final(self) == *old(self)
            },
            (old(self).current_proposal matches Some(c) && c.id == proposal_id
                && now_ms > c.expires_at) ==> {
                &&& (r matches Err(e) && e matches OrpheonError::NegotiationRejected {
                    intent_id,
                    reason,
                } && intent_id == old(self).intent.id
                    && reason@ == "Proposal has expired"@)
                &&& *final(self) == *old(self)
            },
            r is Ok <==> (old(self).current_proposal matches Some(c) && c.id == proposal_id
                && now_ms <= c.expires_at),
            r matches Ok(execution_id) ==> {
                &&& final(self).state == NegotiationState::Accepted
                &&& final(self).outgoing.deep_view() == old(self).outgoing.deep_view().push(
                    NegotiationMessageV::Confirmed { proposal_id, execution_id },
                )
                &&& final(self).round == old(self).round
                &&& final(self).max_rounds == old(self).max_rounds
                &&& final(self).intent@ == old(self).intent@
            },
    {
        match &self.current_proposal {
            None => Err(OrpheonError::NegotiationRejected {
                intent_id: self.intent.id,
                reason: String::from_str("No active proposal to accept"),
            }),
            Some(proposal) => {
                if proposal.id != proposal_id {
                    return Err(OrpheonError::NegotiationRejected {
                        intent_id: self.intent.id,
                        reason: String::from_str("Proposal ID mismatch"),
                    });
                }
                if proposal.is_expired_at(now_ms) {
                    return Err(OrpheonError::NegotiationRejected {
                        intent_id: self.intent.id,
                        reason: String::from_str("Proposal has expired"),
                    });
                }
                self.state = NegotiationState::Accepted;
                let execution_id = fresh_id();
                let ghost msgs = self.outgoing.deep_view();
                self.outgoing.push(NegotiationMessage::Confirmed {
                    proposal_id,
                    execution_id,
                });
                proof {
                    assert(self.outgoing.deep_view() =~~= msgs.push(
                        NegotiationMessageV::Confirmed { proposal_id, execution_id },
                    ));
                }
                Ok(execution_id)
            }
        }
    }

    /// Accept the current proposal now.
    pub fn accept(&mut self, proposal_id: Id) -> (r: Result<Id, OrpheonError>)
        requires
            old(self).wf(),
        ensures
            final(self).wf(),
            old(self).current_proposal is None ==> r is Err && *final(self) == *old(self),
            (old(self).current_proposal matches Some(c) && c.id != proposal_id)
                ==> r is Err && *final(self) == *old(self),
            r is Err ==> (r matches Err(e) && e matches OrpheonError::NegotiationRejected {
                intent_id,
                ..
            } && intent_id == old(self).intent.id),
            r matches Ok(execution_id) ==> {
                &&& final(self).state == NegotiationState::Accepted
                &&& final(self).outgoing.deep_view() == old(self).outgoing.deep_view().push(
                    NegotiationMessageV::Confirmed { proposal_id, execution_id },
                )
                &&& final(self).round == old(self).round
                &&& final(self).intent@ == old(self).intent@
            },
    {
        let now = now_millis();
        self.accept_at(proposal_id, now)
    }

    /// Process a counter-offer from the client: fails with a negotiation
    /// rejection, changing nothing, when there is no current proposal or the
    /// counter references another proposal; otherwise it joins the counter
    /// history and the session moves to Countered.
    pub fn counter(&mut self, counter: CounterOffer) -> (r: Result<(), OrpheonError>)
        requires
            old(self).wf(),
        ensures
            final(self).wf(),
            old(self).current_proposal is None ==> {
                &&& (r matches Err(e) && e matches OrpheonError::NegotiationRejected {
                    intent_id,
                    reason,
                } && intent_id == old(self).intent.id
                    && reason@ == "No active proposal to counter"@)
                &&& *final(self) == *old(self)
            },
            (old(self).current_proposal matches Some(c) && c.id != counter.proposal_id) ==> {
                &&& (r matches Err(e) && e matches OrpheonError::NegotiationRejected {
                    intent_id,
                    reason,
                } && intent_id == old(self).intent.id
                    && reason@ == "Counter-offer references wrong proposal"@)
                &&& *final(self) == *old(self)
            },
            r is Ok <==> (old(self).current_proposal matches Some(c)
                && c.id == counter.proposal_id),
            r is Ok ==> {
                &&& final(self).state == NegotiationState::Countered
                &&& final(self).counter_history.deep_view()
                    == old(self).counter_history.deep_view().push(counter@)
                &&& final(self).round == old(self).round
                &&& final(self).max_rounds == old(self).max_rounds
                &&& final(self).outgoing@ == old(self).outgoing@
                &&& final(self).intent@ == old(self).intent@
            },
    {
        match &self.current_proposal {
            None => Err(OrpheonError::NegotiationRejected {
                intent_id: self.intent.id,
                reason: String::from_str("No active proposal to counter"),
            }),
            Some(proposal) => {
                if proposal.id != counter.proposal_id {
                    return Err(OrpheonError::NegotiationRejected {
                        intent_id: self.intent.id,
                        reason: String::from_str("Counter-offer references wrong proposal"),
                    });
                }
                let ghost hist = self.counter_history.deep_view();
                let ghost cv = counter@;
                self.counter_history.push(counter);
                self.state = NegotiationState::Countered;
                proof {
                    assert(self.counter_history.deep_view() =~~= hist.push(cv));
                }
                Ok(())
            }
        }
    }

    /// Reject the negotiation: the session moves to Rejected and queues a
    /// failure message carrying the reason.
    pub fn reject(&mut self, reason: String) -> (r: Result<(), OrpheonError>)
        requires
            old(self).wf(),
        ensures
            final(self).wf(),
            r is Ok,
            final(self).state == NegotiationState::Rejected,
            final(self).outgoing.deep_view() == old(self).outgoing.deep_view().push(
                NegotiationMessageV::Failed { reason: reason@ },
            ),
            final(self).round == old(self).round,
            final(self).counter_history@ == old(self).counter_history@,
            final(self).proposal_history@ == old(self).proposal_history@,
            final(self).intent@ == old(self).intent@,
    {
        self.state = NegotiationState::Rejected;
        let ghost msgs = self.outgoing.deep_view();
        let ghost rv = reason@;
        self.outgoing.push(NegotiationMessage::Failed { reason });
        proof {
            assert(self.outgoing.deep_view() =~~= msgs.push(
                NegotiationMessageV::Failed { reason: rv },
            ));
        }
        Ok(())
    }

    /// The last counter-offer, if any.
    pub fn last_counter(&self) -> (r: Option<CounterOffer>)
        ensures
            self.counter_history@.len() == 0 ==> r is None,
            self.counter_history@.len() > 0 ==> (r matches Some(c)
                && c@ == self.counter_history.deep_view().last()),
    {
        if self.counter_history.len() > 0 {
            Some(self.counter_history[self.counter_history.len() - 1].duplicate())
        } else {
            None
        }
    }

    /// The proposals sent so far, in order.
    pub fn proposal_history(&self) -> (r: Vec<Proposal>)
        ensures
            r.deep_view() == self.proposal_history.deep_view(),
    {
        let mut out: Vec<Proposal> = Vec::new();
        let mut i: usize = 0;
        while i < self.proposal_history.len()
            invariant
                i <= self.proposal_history@.len(),
                out@.len() == i,
                forall|j: int| 0 <= j < i
                    ==> #[trigger] out@[j]@ == self.proposal_history@[j]@,
            decreases self.proposal_history@.len() - i,
        {
            out.push(self.proposal_history[i].duplicate());
            i = i + 1;
        }
        proof {
            assert(out.deep_view() =~~= self.proposal_history.deep_view());
        }
        out
    }

    /// Take the queued outgoing messages, oldest first, leaving the queue
    /// empty; the transport delivers them.
    pub fn drain_outgoing(&mut self) -> (r: Vec<NegotiationMessage>)
        ensures
            r.deep_view() == old(self).outgoing.deep_view(),
            final(self).outgoing@.len() == 0,
            final(self).state == old(self).state,
            final(self).round == old(self).round,
            final(self).current_proposal == old(self).current_proposal,
            final(self).proposal_history@ == old(self).proposal_history@,
            final(self).counter_history@ == old(self).counter_history@,
            final(self).intent@ == old(self).intent@,
    {
        let mut out: Vec<NegotiationMessage> = Vec::new();
        core::mem::swap(&mut self.outgoing, &mut out);
        out
    }
}

impl DeepView for Proposal {
    type V = ProposalV;

    open spec fn deep_view(&self) -> ProposalV {
        self.view()
    }
}

impl DeepView for CounterOffer {
    type V = CounterOfferV;

    open spec fn deep_view(&self) -> CounterOfferV {
        self.view()
    }
}

} // verus!
