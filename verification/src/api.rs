//! The externally visible response shapes and the request-handling decisions
//! behind the HTTP surface. The transport itself (routing, JSON, sockets) is
//! outside the library; what each handler computes is decided here.

use vstd::prelude::*;

use crate::engine::{AppState, RecordV, assoc_get, assoc_put};
use crate::errors::OrpheonError;
use crate::ids::Id;
use crate::intent::{Budget, Intent, IntentBuilder};
use crate::plan::PlanningStrategy;
use crate::planner::{AStarPlanner, PlanningState};
use crate::types::{IntentStatus, status_step_allowed};

verus! {

/// Health check response.
#[derive(Debug, Clone)]
pub struct HealthResponse {
    /// Service health indicator.
    pub status: String,
    /// Version of the node.
    pub version: String,
    /// Protocol name and revision.
    pub protocol: String,
}

/// The health check: the node reports itself healthy.
pub fn health_check() -> (r: HealthResponse)
    ensures
        r.status@ == "healthy"@,
        r.version@ == "0.1.0"@,
        r.protocol@ == "orpheon/1.0"@,
{
    HealthResponse {
        status: String::from_str("healthy"),
        version: String::from_str("0.1.0"),
        protocol: String::from_str("orpheon/1.0"),
    }
}

/// Response after submitting an intent.
#[derive(Debug, Clone)]
pub struct SubmitIntentResponse {
    /// The new intent's id.
    pub id: Id,
    /// The record's status name.
    pub status: String,
    /// Human-readable confirmation.
    pub message: String,
}

/// Response with intent details.
#[derive(Debug, Clone)]
pub struct IntentResponse {
    /// The intent's id.
    pub id: Id,
    /// The intent's kind.
    pub kind: String,
    /// The record's status name (lower snake case).
    pub status: String,
    /// The plan generated for the intent, if any.
    pub plan_id: Option<Id>,
    /// The artifact produced for the intent, if any.
    pub artifact_id: Option<Id>,
    /// The error recorded for the intent, if any.
    pub error: Option<String>,
    /// When the intent was created (milliseconds since the epoch).
    pub created_at: i64,
}

/// Shape an intent record into its external response.
pub fn intent_response_of(record: &crate::engine::IntentRecord) -> (r: IntentResponse)
    ensures
        r.id == record.intent.id,
        r.kind@ == record.intent.kind@,
        r.status@ == record.status.spec_name(),
        r.plan_id == record.plan_id,
        r.artifact_id == record.artifact_id,
        match record@.error {
            Option::Some(e) => r.error matches Some(x) && x@ == e,
            Option::None => r.error is None,
        },
        r.created_at == record.intent.created_at,
{
    IntentResponse {
        id: record.intent.id,
        kind: record.intent.kind.clone(),
        status: record.status.as_str().to_owned(),
        plan_id: record.plan_id,
        artifact_id: record.artifact_id,
        error: match &record.error {
            Some(e) => Some(e.clone()),
            None => None,
        },
        created_at: record.intent.created_at,
    }
}

/// Submit an intent: it is stored with Received status, and the response
/// names the fresh record's id and status.
pub fn submit_intent(state: &mut AppState, intent: Intent) -> (r: SubmitIntentResponse)
    requires
        old(state).wf(),
    ensures
        final(state).wf(),
        r.id == intent.id,
        r.status@ == "received"@,
        final(state).intents_v() == assoc_put(
            old(state).intents_v(),
            intent.id,
            (RecordV {
                intent: intent@,
                status: IntentStatus::Received,
                plan_id: Option::None,
                artifact_id: Option::None,
                error: Option::None,
            }),
        ),
        final(state).plans_v() == old(state).plans_v(),
        final(state).artifacts_v() == old(state).artifacts_v(),
{
    let id = intent.id;
    state.store_intent(intent);
    SubmitIntentResponse {
        id,
        status: String::from_str("received"),
        message: String::from_str("Intent submitted successfully"),
    }
}

/// Cancel an intent: the record moves to Cancelled when it exists and is not
/// terminal. Fails with NotFound when no such record exists, and with a
/// validation error naming the intent when the record is already terminal.
pub fn cancel_intent(state: &mut AppState, id: Id) -> (r: Result<(), OrpheonError>)
    requires
        old(state).wf(),
    ensures
        final(state).wf(),
        ({
            let m = old(state).intents_v();
            match assoc_get(m, id) {
                Option::Some(rec) => if rec.status.spec_is_terminal() {
                    &&& (r matches Err(e) && e matches OrpheonError::IntentInvalid {
                        intent_id,
                        ..
                    } && intent_id == Some(id))
                    &&& final(state).intents_v() == m
                } else {
                    &&& r is Ok
                    &&& final(state).intents_v() == assoc_put(
                        m,
                        id,
                        (RecordV { status: IntentStatus::Cancelled, ..rec }),
                    )
                },
                Option::None => {
                    &&& (r matches Err(e) && e matches OrpheonError::NotFound { .. })
                    &&& final(state).intents_v() == m
                },
            }
        }),
        final(state).plans_v() == old(state).plans_v(),
        final(state).artifacts_v() == old(state).artifacts_v(),
{
    let record = match state.get_intent(id) {
        Some(r) => r,
        None => {
            return Err(OrpheonError::NotFound {
                resource_type: String::from_str("intent"),
                id: String::new(),
            });
        }
    };
    if record.status.is_terminal() {
        return Err(OrpheonError::IntentInvalid {
            intent_id: Some(id),
            message: String::from_str("Intent is already in a terminal state"),
        });
    }
    proof {
        let rec = assoc_get(old(state).intents_v(), id)->Some_0;
        assert(rec.status.spec_is_active());
        assert(status_step_allowed(rec.status, IntentStatus::Cancelled));
    }
    let changed = state.update_intent_status(id, IntentStatus::Cancelled);
    proof {
        assert(changed);
    }
    Ok(())
}

/// A warning attached to a simulation.
#[derive(Debug, Clone, Copy, PartialEq, Eq, Structural)]
pub enum SimulationWarning {
    /// The plan's estimated cost exceeds the requested cost cap (both in
    /// hundredths of a unit).
    CostExceedsBudget { estimated: u64, limit: u64 },
    /// The plan's estimated duration exceeds the requested duration cap.
    DurationExceedsLimit { estimated_ms: u64, limit_ms: u64 },
}

/// Brief description of a simulated plan.
#[derive(Debug, Clone, Copy, PartialEq, Eq, Structural)]
pub struct PlanSummary {
    /// The plan's id.
    pub id: Id,
    /// How many steps the plan has.
    pub steps: usize,
    /// The strategy that produced the plan.
    pub strategy: PlanningStrategy,
}

/// Response from a simulation.
#[derive(Debug, Clone)]
pub struct SimulateResponse {
    /// The simulation's id.
    pub simulation_id: Id,
    /// Whether planning succeeded.
    pub success: bool,
    /// The simulated plan, when planning succeeded.
    pub plan: Option<PlanSummary>,
    /// The plan's estimated cost, in hundredths of a unit (zero on failure).
    pub estimated_cost: u64,
    /// The plan's estimated duration in milliseconds (zero on failure).
    pub estimated_duration_ms: u64,
    /// The plan's confidence, in thousandths (zero on failure).
    pub confidence_score: u32,
    /// Warnings about the requested caps.
    pub warnings: Vec<SimulationWarning>,
    /// The planning error, rendered, when planning failed.
    pub error: Option<String>,
}

/// Simulate an intent without executing it: plan a fresh intent of the given
/// kind under the given caps, and report the plan's estimates, which a
/// successful simulation keeps within the caps, with a warning for each cap
/// the estimates exceed; a planning failure is reported with its rendered
/// error and no plan.
pub fn simulate_intent(
    planner: &AStarPlanner,
    kind: &str,
    max_cost: Option<u64>,
    max_duration_ms: Option<u64>,
) -> (r: Result<SimulateResponse, OrpheonError>)
    ensures
        r matches Ok(resp) ==> {
            &&& resp.success <==> resp.plan is Some
            &&& resp.success ==> resp.confidence_score == 850u32 && resp.error is None
                && (resp.plan matches Some(ps) && ps.strategy == PlanningStrategy::Heuristic
                    && ps.steps > 0)
                && (max_cost matches Some(mc) ==> resp.estimated_cost <= mc)
                && (max_duration_ms matches Some(md) ==> resp.estimated_duration_ms <= md)
                && (resp.warnings@.contains(SimulationWarning::CostExceedsBudget {
                    estimated: resp.estimated_cost,
                    limit: match max_cost { Option::Some(mc) => mc, Option::None => 0u64 },
                }) <==> (max_cost matches Some(mc) && resp.estimated_cost > mc))
            &&& !resp.success ==> resp.error is Some && resp.estimated_cost == 0u64
                && resp.estimated_duration_ms == 0u64 && resp.confidence_score == 0u32
                && resp.warnings@.len() == 0
        },
{
    let budget = Budget {
        max_cost,
        currency: String::from_str("USD"),
        max_duration_ms,
        max_retries: 3,
    };
    let built = IntentBuilder::new().kind(kind).budget(budget).build();
    let intent = match built {
        Ok(i) => i,
        Err(e) => {
            return Err(e);
        }
    };

    let initial_state = PlanningState::new();
    match planner.plan(&intent, &initial_state) {
        Ok(plan) => {
            proof {
                let init_set = crate::planner::var_set(initial_state@.variables);
                if plan@.steps.len() == 0 {
                    let idxs = choose|idxs: Seq<int>|
                        idxs.len() == plan@.steps.len()
                        && #[trigger] crate::planner::steps_replay(
                            planner.spec_actions(),
                            idxs,
                            plan@.steps,
                            init_set,
                        )
                        && crate::planner::vars_after_steps(
                            planner.spec_actions(),
                            idxs,
                            plan@.steps,
                            init_set,
                        ).contains("complete"@);
                    assert(crate::planner::vars_after_steps(
                        planner.spec_actions(),
                        idxs,
                        plan@.steps,
                        init_set,
                    ) == init_set);
                    assert(!crate::planner::has_var(initial_state@.variables, "complete"@));
                    assert(!init_set.contains("complete"@));
                    assert(false);
                }
            }
            let mut warnings: Vec<SimulationWarning> = Vec::new();
            let ghost none_warnings = warnings@;
            proof {
                assert(none_warnings =~= Seq::<SimulationWarning>::empty());
            }
            match max_cost {
                Some(mc) => {
                    if plan.estimated_cost > mc {
                        warnings.push(SimulationWarning::CostExceedsBudget {
                            estimated: plan.estimated_cost,
                            limit: mc,
                        });
                    }
                }
                None => {}
            }
            let ghost after_cost = warnings@;
            match max_duration_ms {
                Some(md) => {
                    if plan.estimated_latency_ms > md {
                        warnings.push(SimulationWarning::DurationExceedsLimit {
                            estimated_ms: plan.estimated_latency_ms,
                            limit_ms: md,
                        });
                    }
                }
                None => {}
            }
            proof {
                let cw = SimulationWarning::CostExceedsBudget {
                    estimated: plan.estimated_cost,
                    limit: match max_cost { Option::Some(mc) => mc, Option::None => 0u64 },
                };
                if max_cost matches Some(mc) && plan.estimated_cost > mc {
                    assert(after_cost[0] == cw);
                    assert(warnings@[0] == cw);
                    assert(warnings@.contains(cw));
                } else {
                    if warnings@.contains(cw) {
                        let j = choose|j: int| 0 <= j < warnings@.len()
                            && warnings@[j] == cw;
                        if j < after_cost.len() {
                            assert(after_cost[j] == cw);
                            assert(false);
                        } else {
                            assert(false);
                        }
                    }
                }
            }
            Ok(SimulateResponse {
                simulation_id: crate::ids::fresh_id(),
                success: true,
                plan: Some(PlanSummary {
                    id: plan.id,
                    steps: plan.steps.len(),
                    strategy: plan.strategy,
                }),
                estimated_cost: plan.estimated_cost,
                estimated_duration_ms: plan.estimated_latency_ms,
                confidence_score: plan.confidence_score,
                warnings,
                error: None,
            })
        }
        Err(e) => {
            Ok(SimulateResponse {
                simulation_id: crate::ids::fresh_id(),
                success: false,
                plan: None,
                estimated_cost: 0,
                estimated_duration_ms: 0,
                confidence_score: 0,
                warnings: Vec::new(),
                error: Some(e.message()),
            })
        }
    }
}

} // verus!
