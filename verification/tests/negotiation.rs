//! Tests of the negotiation session and its protocol types.

use orpheon::intent::Intent;
use orpheon::negotiate::{
    CounterOffer, NegotiationMessage, NegotiationSession, NegotiationState, Proposal,
};
use orpheon::plan::{Plan, PlanningStrategy};
use orpheon::ids::Id;

fn create_test_intent() -> Intent {
    Intent::builder().kind("test").build().unwrap()
}

#[test]
fn test_session_creation() {
    let intent = create_test_intent();
    let session = NegotiationSession::new(intent.duplicate(), 60, 5);

    assert_eq!(session.intent.id, intent.id);
    assert_eq!(session.state(), NegotiationState::Pending);
    assert_eq!(session.current_round(), 0);
    assert!(!session.is_timed_out());
}

#[test]
fn test_send_proposal() {
    let intent = create_test_intent();
    let mut session = NegotiationSession::new(intent.duplicate(), 60, 5);

    let plan = Plan::new(intent.id, PlanningStrategy::Deterministic);
    let proposal = session.send_proposal(plan).unwrap();

    assert_eq!(session.state(), NegotiationState::ProposalSent);
    assert_eq!(session.current_round(), 1);
    assert_eq!(proposal.intent_id, intent.id);
    assert_eq!(proposal.version, 1);

    // Check the offer message was queued.
    let messages = session.drain_outgoing();
    assert_eq!(messages.len(), 1);
    assert!(matches!(messages[0], NegotiationMessage::Offer(_)));
}

#[test]
fn test_max_rounds() {
    let intent = create_test_intent();
    let mut session = NegotiationSession::new(intent.duplicate(), 60, 2);

    let plan = Plan::new(intent.id, PlanningStrategy::Deterministic);

    // First two rounds should succeed.
    session.send_proposal(plan.duplicate()).unwrap();
    session.send_proposal(plan.duplicate()).unwrap();

    // Third round should fail.
    let result = session.send_proposal(plan);
    assert!(result.is_err());
    assert_eq!(session.current_round(), 2);
}

#[test]
fn test_negotiation_accept() {
    let intent = create_test_intent();
    let mut session = NegotiationSession::new(intent.duplicate(), 60, 5);
    let plan = Plan::new(intent.id, PlanningStrategy::Heuristic);

    let proposal = session.send_proposal(plan).unwrap();
    let execution_id = session.accept(proposal.id).unwrap();

    assert_eq!(session.state(), NegotiationState::Accepted);
    let messages = session.drain_outgoing();
    assert_eq!(messages.len(), 2);
    assert!(matches!(messages[0], NegotiationMessage::Offer(_)));
    match &messages[1] {
        NegotiationMessage::Confirmed { proposal_id, execution_id: eid } => {
            assert_eq!(*proposal_id, proposal.id);
            assert_eq!(*eid, execution_id);
        }
        other => panic!("unexpected message: {:?}", other),
    }
}

#[test]
fn test_accept_mismatch_and_missing() {
    let intent = create_test_intent();
    let mut session = NegotiationSession::new(intent.duplicate(), 60, 5);

    // No proposal yet.
    assert!(session.accept(Id { bits: 1 }).is_err());

    let plan = Plan::new(intent.id, PlanningStrategy::Heuristic);
    let proposal = session.send_proposal(plan).unwrap();
    // Wrong id.
    assert!(session.accept(Id { bits: proposal.id.bits ^ 1 }).is_err());
}

#[test]
fn test_accept_expired_proposal() {
    let intent = create_test_intent();
    let mut session = NegotiationSession::new(intent.duplicate(), 60, 5);
    let plan = Plan::new(intent.id, PlanningStrategy::Heuristic);
    let proposal = session.send_proposal_at(plan, 1_000).unwrap();
    // Five minutes and one millisecond later, the proposal is expired.
    let too_late = proposal.expires_at + 1;
    assert!(session.accept_at(proposal.id, too_late).is_err());
}

#[test]
fn test_counter_then_replan() {
    let intent = create_test_intent();
    let mut session = NegotiationSession::new(intent.duplicate(), 60, 5);

    let p1 = session
        .send_proposal(Plan::new(intent.id, PlanningStrategy::Heuristic))
        .unwrap();
    let counter = CounterOffer::new(p1.id).with_max_cost(5_000);
    session.counter(counter).unwrap();

    assert_eq!(session.state(), NegotiationState::Countered);
    let last = session.last_counter().unwrap();
    assert_eq!(last.proposal_id, p1.id);
    assert_eq!(last.max_cost, Some(5_000));

    // Re-plan and send again: the round advances to two, and the proposal
    // version is incremented per counter round.
    let p2 = session
        .send_proposal(Plan::new(intent.id, PlanningStrategy::Heuristic))
        .unwrap();
    assert_eq!(session.current_round(), 2);
    assert_eq!(session.proposal_history().len(), 2);
    assert_eq!(p2.version, 2);
}

#[test]
fn test_counter_wrong_proposal() {
    let intent = create_test_intent();
    let mut session = NegotiationSession::new(intent.duplicate(), 60, 5);
    let p1 = session
        .send_proposal(Plan::new(intent.id, PlanningStrategy::Heuristic))
        .unwrap();
    let wrong = CounterOffer::new(Id { bits: p1.id.bits ^ 1 });
    assert!(session.counter(wrong).is_err());
}

#[test]
fn test_reject() {
    let intent = create_test_intent();
    let mut session = NegotiationSession::new(intent, 60, 5);
    session.reject("not interested".to_string()).unwrap();
    assert_eq!(session.state(), NegotiationState::Rejected);
    let messages = session.drain_outgoing();
    assert_eq!(messages.len(), 1);
    match &messages[0] {
        NegotiationMessage::Failed { reason } => assert_eq!(reason, "not interested"),
        other => panic!("unexpected message: {:?}", other),
    }
}

#[test]
fn test_session_timeout() {
    let intent = create_test_intent();
    let session = NegotiationSession::new_at(intent, 1_000, 60, 5);
    assert_eq!(session.timeout_at, 61_000);
    assert!(!session.is_timed_out_at(61_000));
    assert!(session.is_timed_out_at(61_001));
}

#[test]
fn test_proposal_creation() {
    let intent_id = Id { bits: 5 };
    let plan = Plan::new(intent_id, PlanningStrategy::Heuristic);

    let proposal = Proposal::new(intent_id, plan).with_sla("latency_p99", 20_000, "ms");

    assert_eq!(proposal.intent_id, intent_id);
    assert_eq!(proposal.sla_guarantees.len(), 1);
    assert!(!proposal.is_expired());
}

#[test]
fn test_proposal_expiry_window() {
    let intent_id = Id { bits: 5 };
    let plan = Plan::new(intent_id, PlanningStrategy::Heuristic);
    let proposal = Proposal::new_at(intent_id, plan, 1_000);
    assert_eq!(proposal.expires_at, 301_000);
    assert!(!proposal.is_expired_at(301_000));
    assert!(proposal.is_expired_at(301_001));
}

#[test]
fn test_counter_offer() {
    let proposal_id = Id { bits: 9 };

    let counter = CounterOffer::new(proposal_id)
        .with_max_cost(5_000)
        .with_max_latency(1000)
        .with_message("Need it cheaper");

    assert_eq!(counter.max_cost, Some(5_000));
    assert!(counter.message.is_some());
    assert_eq!(counter.max_latency_ms, Some(1000));
}
