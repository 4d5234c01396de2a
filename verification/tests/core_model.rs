//! Tests of the intent model, statuses, outcomes and artifacts.

use orpheon::artifact::{ExecutionArtifact, ExecutionEvent, ExecutionEventType, Outcome};
use orpheon::ids::Id;
use orpheon::intent::{Budget, Intent, TimeWindow};
use orpheon::plan::{Plan, PlanningStrategy};
use orpheon::errors::OrpheonError;
use orpheon::types::IntentStatus;

fn create_test_intent() -> Intent {
    Intent::builder().kind("test_intent").build().unwrap()
}

#[test]
fn test_intent_status_terminal() {
    assert!(IntentStatus::Complete.is_terminal());
    assert!(IntentStatus::Failed.is_terminal());
    assert!(IntentStatus::Cancelled.is_terminal());
    assert!(!IntentStatus::Executing.is_terminal());
}

#[test]
fn test_intent_status_active() {
    assert!(IntentStatus::Executing.is_active());
    assert!(IntentStatus::Planning.is_active());
    assert!(!IntentStatus::Complete.is_active());
}

#[test]
fn test_intent_builder() {
    let intent = Intent::builder()
        .kind("provision_gpu_cluster")
        .resource_limit("count", 800)
        .sla("latency", 200, "ms")
        .minimize("cost", 700)
        .maximize("speed", 300)
        .budget(Budget::usd(10_000))
        .build()
        .unwrap();

    assert_eq!(intent.kind, "provision_gpu_cluster");
    assert_eq!(intent.constraints.len(), 2);
    assert_eq!(intent.preferences.len(), 2);
}

#[test]
fn test_intent_validation() {
    let intent = Intent::builder().kind("test").build().unwrap();
    assert!(intent.validate().is_ok());
}

#[test]
fn test_intent_builder_missing_kind() {
    let result = Intent::builder().build();
    assert!(result.is_err());
}

#[test]
fn test_budget_builder() {
    let budget = Budget::usd(5_000).with_duration(5000).with_retries(5);
    assert_eq!(budget.max_cost, Some(5_000));
    assert_eq!(budget.max_duration_ms, Some(5000));
    assert_eq!(budget.max_retries, 5);
}

#[test]
fn test_time_window_validity() {
    let window = TimeWindow::valid_for(3_600_000);
    assert!(window.is_valid_now());
}

#[test]
fn test_blank_kind_rejected() {
    let intent = Intent::builder().kind("   ").build().unwrap();
    assert!(intent.validate().is_err());
}

#[test]
fn test_validation_outside_window() {
    let mut intent = Intent::builder().kind("test").build().unwrap();
    intent.validity_window = TimeWindow {
        not_before: None,
        not_after: Some(intent.created_at - 1),
    };
    assert!(intent.validate_at(intent.created_at).is_err());
}

#[test]
fn test_preference_weights_validation() {
    // Weights must sum to one (in thousandths) within a hundredth.
    let off = Intent::builder()
        .kind("test")
        .minimize("cost", 500)
        .maximize("speed", 600)
        .build()
        .unwrap();
    assert!(off.validate().is_err());

    let on = Intent::builder()
        .kind("test")
        .minimize("cost", 500)
        .maximize("speed", 500)
        .build()
        .unwrap();
    assert!(on.validate().is_ok());

    let near = Intent::builder()
        .kind("test")
        .minimize("cost", 495)
        .maximize("speed", 510)
        .build()
        .unwrap();
    assert!(near.validate().is_ok());
}

#[test]
fn test_content_hash_matches_direct_digest() {
    let intent = create_test_intent();
    let bytes = intent.content_bytes();
    let digest = <sha2::Sha256 as sha2::Digest>::digest(&bytes);
    let expected: String = digest.iter().map(|b| format!("{:02x}", b)).collect();
    assert_eq!(intent.content_hash(), expected);
}

#[test]
fn test_content_hash_deterministic() {
    let intent = create_test_intent();
    let copy = intent.duplicate();
    assert_eq!(intent.content_hash(), copy.content_hash());
    // The signature does not enter the hash.
    let mut signed = intent.duplicate();
    signed.signature = Some(orpheon::intent::Signature {
        algorithm: "ed25519".to_string(),
        public_key: "00".to_string(),
        signature: "ff".to_string(),
        signed_at: 0,
    });
    assert_eq!(intent.content_hash(), signed.content_hash());
}

#[test]
fn test_hex_encode() {
    assert_eq!(orpheon::hashing::hex_encode(&[0x00, 0xff, 0x1a]), "00ff1a");
    assert_eq!(orpheon::hashing::encode(&[]), "");
}

#[test]
fn test_artifact_creation() {
    let intent = create_test_intent();
    let plan = Plan::new(intent.id, PlanningStrategy::Deterministic);
    let artifact = ExecutionArtifact::new(intent, plan, Outcome::Success);

    assert!(artifact.outcome.is_success());
    assert!(!artifact.merkle_root.is_empty());
}

#[test]
fn test_merkle_root_computation() {
    let intent = create_test_intent();
    let plan = Plan::new(intent.id, PlanningStrategy::Deterministic);
    let mut artifact = ExecutionArtifact::new(intent, plan, Outcome::Success);

    let step_id = Id { bits: 7 };
    artifact.add_event(ExecutionEvent::step_started(step_id));
    artifact.add_event(ExecutionEvent::step_completed(step_id, 100));

    assert!(artifact.verify_merkle_root());
}

#[test]
fn test_empty_trace_merkle_root_is_zero() {
    let intent = create_test_intent();
    let plan = Plan::new(intent.id, PlanningStrategy::Deterministic);
    let artifact = ExecutionArtifact::new(intent, plan, Outcome::Success);
    assert_eq!(artifact.merkle_root.len(), 64);
    assert!(artifact.merkle_root.chars().all(|c| c == '0'));
    assert!(artifact.verify_merkle_root());
}

#[test]
fn test_tampered_merkle_root_fails() {
    let intent = create_test_intent();
    let plan = Plan::new(intent.id, PlanningStrategy::Deterministic);
    let mut artifact = ExecutionArtifact::new(intent, plan, Outcome::Success);
    artifact.add_event(ExecutionEvent::step_started(Id { bits: 1 }));
    assert!(artifact.verify_merkle_root());
    artifact.merkle_root =
        "0000000000000000000000000000000000000000000000000000000000000000".to_string();
    assert!(!artifact.verify_merkle_root());
}

#[test]
fn test_success_rate() {
    let intent = create_test_intent();
    let plan = Plan::new(intent.id, PlanningStrategy::Deterministic);
    let mut artifact = ExecutionArtifact::new(intent, plan, Outcome::Success);

    let step1 = Id { bits: 1 };
    let step2 = Id { bits: 2 };
    let step3 = Id { bits: 3 };

    artifact.add_event(ExecutionEvent::step_completed(step1, 100));
    artifact.add_event(ExecutionEvent::step_completed(step2, 100));
    artifact.add_event(ExecutionEvent::step_failed(step3, "error"));

    // Two completions out of three outcomes: 66 percent, rounded down.
    let rate = artifact.success_rate();
    assert_eq!(rate, 66);
}

#[test]
fn test_failed_and_successful_steps() {
    let intent = create_test_intent();
    let plan = Plan::new(intent.id, PlanningStrategy::Deterministic);
    let mut artifact = ExecutionArtifact::new(intent, plan, Outcome::Success);
    artifact.add_event(ExecutionEvent::step_completed(Id { bits: 1 }, 10));
    artifact.add_event(ExecutionEvent::step_failed(Id { bits: 2 }, "boom"));
    let failed = artifact.failed_steps();
    let ok = artifact.successful_steps();
    assert_eq!(failed.len(), 1);
    assert_eq!(ok.len(), 1);
    assert_eq!(failed[0].event_type, ExecutionEventType::StepFailed);
    assert_eq!(ok[0].event_type, ExecutionEventType::StepCompleted);
}

#[test]
fn test_outcome_checks() {
    assert!(Outcome::Success.is_success());
    assert!(!Outcome::Success.is_failure());

    let failure = Outcome::Failure {
        reason: "test".to_string(),
        compensated: false,
    };
    assert!(failure.is_failure());
    assert!(!failure.is_success());
}

#[test]
fn test_error_messages_and_recovery() {
    let e = OrpheonError::PlanningFailed {
        intent_id: Id { bits: 9 },
        message: "no path".to_string(),
    };
    assert_eq!(e.message(), "Planning failed: no path");
    assert!(!e.is_recoverable());
    assert_eq!(e.intent_id(), Some(Id { bits: 9 }));

    let t = OrpheonError::Timeout {
        duration_ms: 5,
        message: "slow".to_string(),
    };
    assert!(t.is_recoverable());
    assert_eq!(t.intent_id(), None);

    let c = OrpheonError::ConnectionError("down".to_string());
    assert!(c.is_recoverable());
    assert_eq!(c.message(), "Connection error: down");

    let n = OrpheonError::NotFound {
        resource_type: "intent".to_string(),
        id: "x".to_string(),
    };
    assert_eq!(n.message(), "Resource not found: intent with id x");
    assert!(!n.is_recoverable());
}

#[test]
fn test_status_names() {
    assert_eq!(IntentStatus::Received.as_str(), "received");
    assert_eq!(IntentStatus::Compensating.as_str(), "compensating");
    assert_eq!(IntentStatus::Cancelled.as_str(), "cancelled");
}
