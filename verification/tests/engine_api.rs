//! Tests of the engine pipeline and the response-shaping layer.

use orpheon::api;
use orpheon::engine::{AppState, Engine};
use orpheon::intent::{Budget, Intent};
use orpheon::types::IntentStatus;
use orpheon::ids::Id;

fn submit(engine: &mut Engine, kind: &str, budget: Budget) -> Id {
    let intent = Intent::builder().kind(kind).budget(budget).build().unwrap();
    let id = intent.id;
    engine.state.store_intent(intent);
    id
}

#[test]
fn test_engine_completes_pending_intent() {
    let mut engine = Engine::new(AppState::new());
    let id = submit(&mut engine, "provision_compute", Budget::usd(10_000));

    engine.process_pending_intents();

    let record = engine.state.get_intent(id).unwrap();
    assert_eq!(record.status, IntentStatus::Complete);
    let plan = engine.state.get_plan_for_intent(id).unwrap();
    assert_eq!(plan.steps.len(), 6);
    let artifact = engine.state.get_artifact_for_intent(id).unwrap();
    assert!(artifact.outcome.is_success());
    assert!(artifact.verify_merkle_root());
    // One started and one completed event per step, in order.
    assert_eq!(artifact.trace.len(), 12);
    assert_eq!(artifact.actual_cost, 1160);
}

#[test]
fn test_engine_fails_over_budget_intent() {
    let mut engine = Engine::new(AppState::new());
    let id = submit(&mut engine, "provision_compute", Budget::usd(300));

    engine.process_pending_intents();

    let record = engine.state.get_intent(id).unwrap();
    assert_eq!(record.status, IntentStatus::Failed);
    assert!(record.error.is_some());
    assert!(engine.state.get_artifact_for_intent(id).is_none());
}

#[test]
fn test_status_updates_respect_graph() {
    let mut state = AppState::new();
    let intent = Intent::builder().kind("test").build().unwrap();
    let id = intent.id;
    state.store_intent(intent);

    // Received cannot jump straight to Complete.
    assert!(!state.update_intent_status(id, IntentStatus::Complete));
    assert_eq!(state.get_intent(id).unwrap().status, IntentStatus::Received);

    // The pipeline order is allowed.
    assert!(state.update_intent_status(id, IntentStatus::Planning));
    assert!(state.update_intent_status(id, IntentStatus::Executing));
    assert!(state.update_intent_status(id, IntentStatus::Complete));

    // Terminal records never change again.
    assert!(!state.update_intent_status(id, IntentStatus::Cancelled));
    assert_eq!(state.get_intent(id).unwrap().status, IntentStatus::Complete);
}

#[test]
fn test_cancel_intent() {
    let mut state = AppState::new();
    let intent = Intent::builder().kind("test").build().unwrap();
    let id = intent.id;
    state.store_intent(intent);

    assert!(api::cancel_intent(&mut state, id).is_ok());
    assert_eq!(state.get_intent(id).unwrap().status, IntentStatus::Cancelled);

    // Cancelling a terminal record conflicts.
    assert!(api::cancel_intent(&mut state, id).is_err());
    // Cancelling an unknown record is a missing resource.
    assert!(api::cancel_intent(&mut state, Id { bits: 31337 }).is_err());
}

#[test]
fn test_list_intents_and_responses() {
    let mut state = AppState::new();
    let a = Intent::builder().kind("one").build().unwrap();
    let b = Intent::builder().kind("two").build().unwrap();
    state.store_intent(a);
    state.store_intent(b);

    let records = state.list_intents();
    assert_eq!(records.len(), 2);
    let response = api::intent_response_of(&records[0]);
    assert_eq!(response.kind, "one");
    assert_eq!(response.status, "received");
    assert!(response.plan_id.is_none());
}

#[test]
fn test_submit_intent_response() {
    let mut state = AppState::new();
    let intent = Intent::builder().kind("test").build().unwrap();
    let id = intent.id;
    let response = api::submit_intent(&mut state, intent);
    assert_eq!(response.id, id);
    assert_eq!(response.status, "received");
    assert_eq!(state.get_intent(id).unwrap().status, IntentStatus::Received);
}

#[test]
fn test_health_check() {
    let health = api::health_check();
    assert_eq!(health.status, "healthy");
    assert_eq!(health.protocol, "orpheon/1.0");
}

#[test]
fn test_simulate_success() {
    let planner = orpheon::planner::AStarPlanner::new();
    let response = api::simulate_intent(&planner, "provision_compute", None, None).unwrap();
    assert!(response.success);
    assert_eq!(response.estimated_cost, 1160);
    assert_eq!(response.estimated_duration_ms, 1950);
    assert_eq!(response.confidence_score, 850);
    // The caps enter the simulated budget and prune the search, so a
    // successful plan never exceeds them and no warning is attached.
    assert!(response.warnings.is_empty());
    let summary = response.plan.unwrap();
    assert_eq!(summary.steps, 6);
}

#[test]
fn test_simulate_failure() {
    let planner = orpheon::planner::AStarPlanner::new();
    // The cap enters the simulated intent's budget, so the search is pruned
    // and planning fails.
    let response = api::simulate_intent(&planner, "provision_compute", Some(300), None).unwrap();
    assert!(!response.success);
    assert!(response.plan.is_none());
    assert!(response.error.is_some());
    assert_eq!(response.estimated_cost, 0);
}
