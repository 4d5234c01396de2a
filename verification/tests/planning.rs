//! Tests of the A* planner: the default catalog, budget pruning, plan
//! structure and plan validation.

use orpheon::intent::{Budget, Intent};
use orpheon::errors::OrpheonError;
use orpheon::planner::{AStarPlanner, PlanningAction, PlanningState};

#[test]
fn test_astar_planning() {
    let planner = AStarPlanner::new();
    let intent = Intent::builder().kind("provision_compute").build().unwrap();

    let initial_state = PlanningState::new();
    let result = planner.plan(&intent, &initial_state);

    assert!(result.is_ok());
    let plan = result.unwrap();
    assert!(!plan.steps.is_empty());
}

#[test]
fn test_plan_validation() {
    let planner = AStarPlanner::new();
    let intent = Intent::builder().kind("test").build().unwrap();

    let initial_state = PlanningState::new();
    let plan = planner.plan(&intent, &initial_state).unwrap();

    let valid = planner.validate_plan(&plan, &initial_state).unwrap();
    assert!(valid);
}

#[test]
fn test_happy_path_plan() {
    // A default catalog run: six steps, cost 11.60 units (1160 hundredths),
    // latency 1950 ms, confidence 0.85 (850 thousandths).
    let planner = AStarPlanner::new();
    let intent = Intent::builder()
        .kind("provision_compute")
        .budget(Budget::usd(10_000))
        .build()
        .unwrap();

    let plan = planner.plan(&intent, &PlanningState::new()).unwrap();
    assert_eq!(plan.steps.len(), 6);
    assert_eq!(plan.estimated_cost, 1160);
    assert_eq!(plan.estimated_latency_ms, 1950);
    assert_eq!(plan.confidence_score, 850);
    assert_eq!(plan.intent_id, intent.id);

    let names: Vec<&str> = plan.steps.iter().map(|s| s.action.as_str()).collect();
    assert_eq!(
        names,
        vec![
            "allocate_resource",
            "provision_compute",
            "configure_network",
            "deploy_workload",
            "verify_health",
            "finalize"
        ]
    );

    // The chain: the first step has no dependency, each later step depends on
    // its predecessor alone.
    assert!(plan.steps[0].depends_on.is_empty());
    for k in 1..plan.steps.len() {
        assert_eq!(plan.steps[k].depends_on.len(), 1);
        assert_eq!(plan.steps[k].depends_on[0], plan.steps[k - 1].id);
    }
}

#[test]
fn test_budget_clamps_search() {
    // A cost cap of 3.00 units prunes the 5.00-unit provisioning action, so
    // planning fails.
    let planner = AStarPlanner::new();
    let intent = Intent::builder()
        .kind("provision_compute")
        .budget(Budget::usd(300))
        .build()
        .unwrap();

    let result = planner.plan(&intent, &PlanningState::new());
    assert!(result.is_err());
    match result.unwrap_err() {
        OrpheonError::PlanningFailed { intent_id, .. } => {
            assert_eq!(intent_id, intent.id);
        }
        other => panic!("unexpected error: {:?}", other),
    }
}

#[test]
fn test_duration_cap_prunes() {
    let planner = AStarPlanner::new();
    let intent = Intent::builder()
        .kind("provision_compute")
        .budget(Budget {
            max_cost: None,
            currency: "USD".to_string(),
            max_duration_ms: Some(100),
            max_retries: 0,
        })
        .build()
        .unwrap();
    assert!(planner.plan(&intent, &PlanningState::new()).is_err());
}

#[test]
fn test_registered_action_shortcut() {
    let mut planner = AStarPlanner::new();
    planner.register_action(PlanningAction {
        name: "leap".to_string(),
        preconditions: Vec::new(),
        effects: vec!["complete".to_string()],
        cost: 100,
        duration_ms: 10,
    });
    let intent = Intent::builder()
        .kind("anything")
        .budget(Budget::usd(150))
        .build()
        .unwrap();
    let plan = planner.plan(&intent, &PlanningState::new()).unwrap();
    assert_eq!(plan.steps.len(), 1);
    assert_eq!(plan.steps[0].action, "leap");
    assert_eq!(plan.estimated_cost, 100);
}

#[test]
fn test_validate_plan_rejects_broken_preconditions() {
    let planner = AStarPlanner::new();
    let intent = Intent::builder().kind("test").build().unwrap();
    let mut plan = planner.plan(&intent, &PlanningState::new()).unwrap();
    // Drop the first step: the provisioning step's precondition is unmet.
    plan.steps.remove(0);
    let valid = planner.validate_plan(&plan, &PlanningState::new()).unwrap();
    assert!(!valid);
}

#[test]
fn test_validate_plan_skips_unknown_actions() {
    let planner = AStarPlanner::new();
    let intent = Intent::builder().kind("test").build().unwrap();
    let mut plan = planner.plan(&intent, &PlanningState::new()).unwrap();
    plan.steps[0].action = "mystery_action".to_string();
    // Unknown actions are opaquely valid, but the later steps lose the first
    // step's effect, so replay fails at the second step.
    let valid = planner.validate_plan(&plan, &PlanningState::new()).unwrap();
    assert!(!valid);
}

#[test]
fn test_planner_config_roundtrip() {
    let mut planner = AStarPlanner::new();
    let mut config = *planner.config();
    assert_eq!(config.max_states_explored, 10_000);
    assert_eq!(config.max_planning_time_ms, 30_000);
    config.max_states_explored = 3;
    planner.set_config(config);
    assert_eq!(planner.config().max_states_explored, 3);

    // With almost no exploration allowed, planning fails on the limit.
    let intent = Intent::builder().kind("test").build().unwrap();
    assert!(planner.plan(&intent, &PlanningState::new()).is_err());
}

#[test]
fn test_planning_state_variables() {
    let mut state = PlanningState::new();
    let key = "compute_ready".to_string();
    assert!(!state.contains_var(&key));
    state.insert_var(&key);
    assert!(state.contains_var(&key));
    state.insert_var(&key);
    assert_eq!(state.variables.len(), 1);
}
