//! The planner: a heuristic (A*) search over registered actions that turns an
//! intent into a linear chain of steps under the intent's budget. Costs are
//! in hundredths of a currency unit.

use vstd::prelude::*;

use crate::clock::now_millis;
use crate::errors::OrpheonError;
use crate::intent::Intent;
use crate::ids::Id;
use crate::plan::{
    Plan, PlanV, PlanningStrategy, Step, StepV, sum_step_costs, sum_step_durations, plan_wf,
    linear_chain, lemma_linear_chain_deps_wf,
};

verus! {

/// Configuration for the planner.
#[derive(Debug, Clone, Copy, PartialEq, Eq, Structural)]
pub struct PlannerConfig {
    /// Maximum number of steps allowed in a plan.
    pub max_steps: usize,
    /// Maximum planning time in milliseconds.
    pub max_planning_time_ms: u64,
    /// Maximum number of states to explore.
    pub max_states_explored: usize,
    /// Enable plan caching/memoization.
    pub enable_memoization: bool,
    /// Confidence threshold in thousandths below which plans are rejected.
    pub min_confidence: u32,
}

/// The default planner limits: 100 steps, 30 s of planning, 10000 states,
/// and a confidence floor of one half.
pub open spec fn default_planner_config() -> PlannerConfig {
    PlannerConfig {
        max_steps: 100usize,
        max_planning_time_ms: 30_000u64,
        max_states_explored: 10_000usize,
        enable_memoization: true,
        min_confidence: 500u32,
    }
}

impl Default for PlannerConfig {
    /// The default limits: 100 steps, 30 s of planning, 10000 states, and a
    /// confidence floor of one half.
    fn default() -> (r: Self)
        ensures
            r == default_planner_config(),
    {
        PlannerConfig {
            max_steps: 100,
            max_planning_time_ms: 30_000,
            max_states_explored: 10_000,
            enable_memoization: true,
            min_confidence: 500,
        }
    }
}

/// State representation for planning: the set of variables that hold (every
/// planning variable's value is "true"), and the accumulated cost and time.
#[derive(Debug, Clone)]
pub struct PlanningState {
    /// The state variables that are set.
    pub variables: Vec<String>,
    /// Cost accumulated so far, in hundredths of a unit.
    pub accumulated_cost: u64,
    /// Time accumulated so far, in milliseconds.
    pub accumulated_time_ms: u64,
}

/// Mathematical value of a planning state.
#[verifier::ext_equal]
pub struct PlanningStateV {
    /// See [`PlanningState::variables`].
    pub variables: Seq<Seq<char>>,
    /// See [`PlanningState::accumulated_cost`].
    pub accumulated_cost: u64,
    /// See [`PlanningState::accumulated_time_ms`].
    pub accumulated_time_ms: u64,
}

impl View for PlanningState {
    type V = PlanningStateV;

    open spec fn view(&self) -> PlanningStateV {
        PlanningStateV {
            variables: self.variables.deep_view(),
            accumulated_cost: self.accumulated_cost,
            accumulated_time_ms: self.accumulated_time_ms,
        }
    }
}

/// Whether a planning variable is set in a state.
pub open spec fn has_var(vars: Seq<Seq<char>>, key: Seq<char>) -> bool {
    exists|i: int| 0 <= i < vars.len() && vars[i] == key
}

impl PlanningState {
    /// The empty planning state: no variables, zero accumulators.
    pub fn new() -> (r: Self)
        ensures
            r@.variables == Seq::<Seq<char>>::empty(),
            r.accumulated_cost == 0u64,
            r.accumulated_time_ms == 0u64,
    {
        let r = PlanningState {
            variables: Vec::new(),
            accumulated_cost: 0,
            accumulated_time_ms: 0,
        };
        proof {
            assert(r@.variables =~= Seq::<Seq<char>>::empty());
        }
        r
    }

    /// An exact copy of this state.
    pub fn duplicate(&self) -> (r: Self)
        ensures
            r@ == self@,
    {
        let mut vars: Vec<String> = Vec::new();
        let mut i: usize = 0;
        while i < self.variables.len()
            invariant
                i <= self.variables@.len(),
                vars@.len() == i,
                forall|j: int| 0 <= j < i ==> #[trigger] vars@[j]@ == self.variables@[j]@,
            decreases self.variables@.len() - i,
        {
            vars.push(self.variables[i].clone());
            i = i + 1;
        }
        let r = PlanningState {
            variables: vars,
            accumulated_cost: self.accumulated_cost,
            accumulated_time_ms: self.accumulated_time_ms,
        };
        proof {
            assert(r@.variables =~~= self@.variables);
        }
        r
    }

    /// Whether the named variable is set.
    pub fn contains_var(&self, key: &String) -> (r: bool)
        ensures
            r == has_var(self@.variables, key@),
    {
        let mut i: usize = 0;
        while i < self.variables.len()
            invariant
                i <= self.variables@.len(),
                forall|j: int| 0 <= j < i ==> self.variables@[j]@ != key@,
            decreases self.variables@.len() - i,
        {
            if self.variables[i] == *key {
                proof {
                    assert(self@.variables[i as int] == key@);
                }
                return true;
            }
            i = i + 1;
        }
        proof {
            assert(forall|j: int| 0 <= j < self@.variables.len()
                ==> #[trigger] self@.variables[j] != key@);
        }
        false
    }

    /// Set the named variable (idempotent).
    pub fn insert_var(&mut self, key: &String)
        ensures
            forall|k: Seq<char>| has_var(final(self)@.variables, k)
                <==> (has_var(old(self)@.variables, k) || k == key@),
            final(self).accumulated_cost == old(self).accumulated_cost,
            final(self).accumulated_time_ms == old(self).accumulated_time_ms,
    {
        if !self.contains_var(key) {
            let ghost pre = self@.variables;
            self.variables.push(key.clone());
            proof {
                assert(self@.variables.len() == pre.len() + 1);
                assert(forall|j: int| 0 <= j < pre.len()
                    ==> #[trigger] self@.variables[j] == pre[j]);
                assert(self@.variables[pre.len() as int] == key@);
                assert forall|k: Seq<char>| has_var(self@.variables, k)
                    implies (has_var(pre, k) || k == key@) by {
                    let i = choose|i: int| 0 <= i < self@.variables.len()
                        && self@.variables[i] == k;
                    if i < pre.len() {
                        assert(pre[i] == k);
                    }
                }
                assert forall|k: Seq<char>| has_var(pre, k) || k == key@
                    implies has_var(self@.variables, k) by {
                    if has_var(pre, k) {
                        let i = choose|i: int| 0 <= i < pre.len() && pre[i] == k;
                        assert(self@.variables[i] == k);
                    } else {
                        assert(self@.variables[pre.len() as int] == k);
                    }
                }
            }
        }
    }
}

/// Action that can be taken during planning.
#[derive(Debug, Clone)]
pub struct PlanningAction {
    /// Name of the action.
    pub name: String,
    /// Variables that must be set before the action applies.
    pub preconditions: Vec<String>,
    /// Variables the action sets.
    pub effects: Vec<String>,
    /// Estimated cost, in hundredths of a unit.
    pub cost: u64,
    /// Estimated duration in milliseconds.
    pub duration_ms: u64,
}

/// Mathematical value of a planning action.
#[verifier::ext_equal]
pub struct PlanningActionV {
    /// See [`PlanningAction::name`].
    pub name: Seq<char>,
    /// See [`PlanningAction::preconditions`].
    pub preconditions: Seq<Seq<char>>,
    /// See [`PlanningAction::effects`].
    pub effects: Seq<Seq<char>>,
    /// See [`PlanningAction::cost`].
    pub cost: u64,
    /// See [`PlanningAction::duration_ms`].
    pub duration_ms: u64,
}

impl View for PlanningAction {
    type V = PlanningActionV;

    open spec fn view(&self) -> PlanningActionV {
        PlanningActionV {
            name: self.name@,
            preconditions: self.preconditions.deep_view(),
            effects: self.effects.deep_view(),
            cost: self.cost,
            duration_ms: self.duration_ms,
        }
    }
}

impl DeepView for PlanningAction {
    type V = PlanningActionV;

    open spec fn deep_view(&self) -> PlanningActionV {
        self.view()
    }
}

/// All of an action's preconditions are set in the state.
pub open spec fn preconds_met(a: PlanningActionV, vars: Seq<Seq<char>>) -> bool {
    forall|i: int| 0 <= i < a.preconditions.len()
        ==> has_var(vars, #[trigger] a.preconditions[i])
}

/// The state's accumulators break the intent's budget: the cost cap or the
/// duration cap, where set, is exceeded.
pub open spec fn budget_violated(s: PlanningStateV, max_cost: Option<u64>, max_duration_ms: Option<u64>) -> bool {
    ||| (max_cost matches Some(m) && s.accumulated_cost > m)
    ||| (max_duration_ms matches Some(d) && s.accumulated_time_ms > d)
}

/// The goal: the state has the variable "complete".
pub open spec fn goal_reached(vars: Seq<Seq<char>>) -> bool {
    has_var(vars, "complete"@)
}

/// The heuristic: 500 (five units) while "complete" is missing, plus 100000
/// (a thousand units) once the accumulated cost exceeds the budget cap.
pub open spec fn spec_heuristic(s: PlanningStateV, max_cost: Option<u64>) -> int {
    (if !goal_reached(s.variables) { 500int } else { 0int })
        + (if max_cost matches Some(m) && s.accumulated_cost > m { 100000int } else { 0int })
}

/// The first registered action with the given name.
pub open spec fn action_by_name(actions: Seq<PlanningActionV>, name: Seq<char>) -> Option<PlanningActionV>
    decreases actions.len(),
{
    if actions.len() == 0 {
        Option::None
    } else if actions[0].name == name {
        Option::Some(actions[0])
    } else {
        action_by_name(actions.drop_first(), name)
    }
}

/// The set of variables a variable list holds.
pub open spec fn var_set(vars: Seq<Seq<char>>) -> Set<Seq<char>> {
    Set::new(|k: Seq<char>| has_var(vars, k))
}

/// The set of variables an action sets.
pub open spec fn effects_set(a: PlanningActionV) -> Set<Seq<char>> {
    Set::new(|k: Seq<char>| a.effects.contains(k))
}

/// All of an action's preconditions lie in a variable set.
pub open spec fn preconds_met_in(a: PlanningActionV, vars: Set<Seq<char>>) -> bool {
    forall|i: int| 0 <= i < a.preconditions.len()
        ==> vars.contains(#[trigger] a.preconditions[i])
}

/// A plan replays against a variable set: walking the steps in order, every
/// step whose action is registered has its preconditions met and applies its
/// effects; steps with unregistered actions are skipped as opaquely valid.
pub open spec fn replay_ok(
    actions: Seq<PlanningActionV>,
    steps: Seq<StepV>,
    vars: Set<Seq<char>>,
) -> bool
    decreases steps.len(),
{
    if steps.len() == 0 {
        true
    } else {
        match action_by_name(actions, steps[0].action) {
            Option::None => replay_ok(actions, steps.drop_first(), vars),
            Option::Some(a) => preconds_met_in(a, vars) && replay_ok(
                actions,
                steps.drop_first(),
                vars.union(effects_set(a)),
            ),
        }
    }
}

/// A replay witness walks a plan's steps: the k-th step is performed by the
/// registered action at the k-th witness index, which carries the step's
/// action name and estimates, finds its preconditions in the variable set
/// reached so far, and contributes its effects.
pub open spec fn steps_replay(
    actions: Seq<PlanningActionV>,
    idxs: Seq<int>,
    steps: Seq<StepV>,
    vars: Set<Seq<char>>,
) -> bool
    decreases steps.len(),
{
    if steps.len() == 0 {
        true
    } else {
        let j = idxs[0];
        &&& 0 <= j < actions.len()
        &&& actions[j].name == steps[0].action
        &&& actions[j].cost == steps[0].estimated_cost
        &&& actions[j].duration_ms == steps[0].estimated_duration_ms
        &&& preconds_met_in(actions[j], vars)
        &&& steps_replay(
            actions,
            idxs.drop_first(),
            steps.drop_first(),
            vars.union(effects_set(actions[j])),
        )
    }
}

/// The variable set reached after performing the witnessed steps in order.
pub open spec fn vars_after_steps(
    actions: Seq<PlanningActionV>,
    idxs: Seq<int>,
    steps: Seq<StepV>,
    vars: Set<Seq<char>>,
) -> Set<Seq<char>>
    decreases steps.len(),
{
    if steps.len() == 0 {
        vars
    } else {
        vars_after_steps(
            actions,
            idxs.drop_first(),
            steps.drop_first(),
            vars.union(effects_set(actions[idxs[0]])),
        )
    }
}

/// Extending a replayed plan by one step whose action finds its
/// preconditions in the reached variable set keeps the plan replayable, and
/// extends the reached set by that action's effects.
pub proof fn lemma_steps_replay_snoc(
    actions: Seq<PlanningActionV>,
    idxs: Seq<int>,
    steps: Seq<StepV>,
    vars: Set<Seq<char>>,
    j: int,
    s: StepV,
)
    requires
        idxs.len() == steps.len(),
        steps_replay(actions, idxs, steps, vars),
        0 <= j < actions.len(),
        actions[j].name == s.action,
        actions[j].cost == s.estimated_cost,
        actions[j].duration_ms == s.estimated_duration_ms,
        preconds_met_in(actions[j], vars_after_steps(actions, idxs, steps, vars)),
    ensures
        steps_replay(actions, idxs.push(j), steps.push(s), vars),
        vars_after_steps(actions, idxs.push(j), steps.push(s), vars)
            == vars_after_steps(actions, idxs, steps, vars).union(effects_set(actions[j])),
    decreases steps.len(),
{
    if steps.len() == 0 {
        assert(idxs.push(j)[0] == j);
        assert(steps.push(s)[0] == s);
        assert(idxs.push(j).drop_first() =~= Seq::<int>::empty());
        assert(steps.push(s).drop_first() =~= Seq::<StepV>::empty());
        assert(vars_after_steps(actions, idxs, steps, vars) == vars);
        assert(preconds_met_in(actions[j], vars));
        assert(steps_replay(
            actions,
            idxs.push(j).drop_first(),
            steps.push(s).drop_first(),
            vars.union(effects_set(actions[j])),
        ));
        assert(steps_replay(actions, idxs.push(j), steps.push(s), vars));
        assert(vars_after_steps(
            actions,
            idxs.push(j).drop_first(),
            steps.push(s).drop_first(),
            vars.union(effects_set(actions[j])),
        ) == vars.union(effects_set(actions[j])));
        assert(vars_after_steps(actions, idxs.push(j), steps.push(s), vars)
            == vars.union(effects_set(actions[j])));
    } else {
        let vars2 = vars.union(effects_set(actions[idxs[0]]));
        assert(idxs.push(j)[0] == idxs[0]);
        assert(steps.push(s)[0] == steps[0]);
        assert(idxs.push(j).drop_first() =~= idxs.drop_first().push(j));
        assert(steps.push(s).drop_first() =~= steps.drop_first().push(s));
        assert(steps_replay(actions, idxs.drop_first(), steps.drop_first(), vars2));
        assert(vars_after_steps(actions, idxs, steps, vars)
            == vars_after_steps(actions, idxs.drop_first(), steps.drop_first(), vars2));
        lemma_steps_replay_snoc(
            actions,
            idxs.drop_first(),
            steps.drop_first(),
            vars2,
            j,
            s,
        );
        assert(steps_replay(
            actions,
            idxs.push(j).drop_first(),
            steps.push(s).drop_first(),
            vars2,
        ));
        assert(steps_replay(actions, idxs.push(j), steps.push(s), vars));
        assert(vars_after_steps(actions, idxs.push(j), steps.push(s), vars)
            == vars_after_steps(
                actions,
                idxs.push(j).drop_first(),
                steps.push(s).drop_first(),
                vars2,
            ));
    }
}

/// Every step of the plan invokes a registered action and carries that
/// action's cost and duration estimates.
pub open spec fn steps_from_actions(actions: Seq<PlanningActionV>, steps: Seq<StepV>) -> bool {
    forall|i: int| 0 <= i < steps.len()
        ==> exists|j: int| 0 <= j < actions.len()
            && (#[trigger] actions[j]).name == (#[trigger] steps[i]).action
            && actions[j].cost == steps[i].estimated_cost
            && actions[j].duration_ms == steps[i].estimated_duration_ms
}

/// Result of a planning operation with additional metadata.
#[derive(Debug)]
pub struct PlanningResult {
    /// The generated plan (if successful).
    pub plan: Option<Plan>,
    /// Number of states explored during planning.
    pub states_explored: usize,
    /// Time spent planning in milliseconds.
    pub planning_time_ms: u64,
    /// Error if planning failed.
    pub error: Option<OrpheonError>,
}

struct SearchNode {
    state: PlanningState,
    steps: Vec<Step>,
    g_cost: u64,
    h_cost: u64,
    f_cost: u64,
    idxs: Ghost<Seq<int>>,
}

impl SearchNode {
    /// What the search maintains of every node it enqueues: the steps form a
    /// linear chain that replays from the initial state (witnessed by the
    /// ghost action indices) into exactly this node's variable set, the cost
    /// and time accumulators are exact sums over those steps on top of the
    /// initial state, and any node with at least one step respects the
    /// budget caps.
    spec fn inv(self, actions: Seq<PlanningActionV>, initial: PlanningStateV, max_cost: Option<u64>, max_duration_ms: Option<u64>) -> bool {
        &&& linear_chain(self.steps.deep_view())
        &&& steps_from_actions(actions, self.steps.deep_view())
        &&& self.idxs@.len() == self.steps.deep_view().len()
        &&& steps_replay(actions, self.idxs@, self.steps.deep_view(), var_set(initial.variables))
        &&& var_set(self.state@.variables) == vars_after_steps(
            actions,
            self.idxs@,
            self.steps.deep_view(),
            var_set(initial.variables),
        )
        &&& self.g_cost == sum_step_costs(self.steps.deep_view())
        &&& self.state.accumulated_cost as int
            == initial.accumulated_cost + sum_step_costs(self.steps.deep_view())
        &&& self.state.accumulated_time_ms as int
            == initial.accumulated_time_ms + sum_step_durations(self.steps.deep_view())
        &&& self.steps.deep_view().len() > 0
            ==> !budget_violated(self.state@, max_cost, max_duration_ms)
    }
}

/// A*-search planner over a set of registered actions.
#[derive(Debug)]
pub struct AStarPlanner {
    /// The planner's configuration.
    pub config: PlannerConfig,
    /// Available actions the planner can use.
    pub actions: Vec<PlanningAction>,
}

impl AStarPlanner {
    /// The planner's registered actions, as values.
    pub open spec fn spec_actions(self) -> Seq<PlanningActionV> {
        self.actions.deep_view()
    }

    /// The planner's configuration, as a value.
    pub open spec fn spec_config(self) -> PlannerConfig {
        self.config
    }

    /// A planner with the default configuration and the default action
    /// catalog.
    pub fn new() -> (r: Self)
        ensures
            r.spec_config() == default_planner_config(),
            r.spec_actions() == default_actions_spec(),
    {
        AStarPlanner {
            config: PlannerConfig::default(),
            actions: Self::default_actions(),
        }
    }

    /// A planner with a custom configuration and the default action catalog.
    pub fn with_config(config: PlannerConfig) -> (r: Self)
        ensures
            r.spec_config() == config,
            r.spec_actions() == default_actions_spec(),
    {
        AStarPlanner {
            config,
            actions: Self::default_actions(),
        }
    }

    /// Register an action that the planner can use.
    pub fn register_action(&mut self, action: PlanningAction)
        ensures
            final(self).spec_actions() == old(self).spec_actions().push(action@),
            final(self).spec_config() == old(self).spec_config(),
    {
        self.actions.push(action);
        proof {
            assert(self.actions.deep_view() =~~= old(self).actions.deep_view().push(action@));
        }
    }

    /// Get the planner configuration.
    pub fn config(&self) -> (r: &PlannerConfig)
        ensures
            *r == self.spec_config(),
    {
        &self.config
    }

    /// Update the planner configuration.
    pub fn set_config(&mut self, config: PlannerConfig)
        ensures
            final(self).spec_config() == config,
            final(self).spec_actions() == old(self).spec_actions(),
    {
        self.config = config;
    }

    /// The default action catalog: a minimal provisioning pipeline from
    /// resource allocation to finalization.
    pub fn default_actions() -> (r: Vec<PlanningAction>)
        ensures
            r.deep_view() == default_actions_spec(),
    {
        let mut actions: Vec<PlanningAction> = Vec::new();
        let mut pre: Vec<String> = Vec::new();
        let mut eff: Vec<String> = Vec::new();
        eff.push(String::from_str("resource_allocated"));
        actions.push(PlanningAction {
            name: String::from_str("allocate_resource"),
            preconditions: pre,
            effects: eff,
            cost: 100,
            duration_ms: 100,
        });

        let mut pre: Vec<String> = Vec::new();
        let mut eff: Vec<String> = Vec::new();
        pre.push(String::from_str("resource_allocated"));
        eff.push(String::from_str("compute_ready"));
        actions.push(PlanningAction {
            name: String::from_str("provision_compute"),
            preconditions: pre,
            effects: eff,
            cost: 500,
            duration_ms: 500,
        });

        let mut pre: Vec<String> = Vec::new();
        let mut eff: Vec<String> = Vec::new();
        pre.push(String::from_str("compute_ready"));
        eff.push(String::from_str("network_configured"));
        actions.push(PlanningAction {
            name: String::from_str("configure_network"),
            preconditions: pre,
            effects: eff,
            cost: 200,
            duration_ms: 200,
        });

        let mut pre: Vec<String> = Vec::new();
        let mut eff: Vec<String> = Vec::new();
        pre.push(String::from_str("compute_ready"));
        pre.push(String::from_str("network_configured"));
        eff.push(String::from_str("workload_deployed"));
        actions.push(PlanningAction {
            name: String::from_str("deploy_workload"),
            preconditions: pre,
            effects: eff,
            cost: 300,
            duration_ms: 1000,
        });

        let mut pre: Vec<String> = Vec::new();
        let mut eff: Vec<String> = Vec::new();
        pre.push(String::from_str("workload_deployed"));
        eff.push(String::from_str("health_verified"));
        actions.push(PlanningAction {
            name: String::from_str("verify_health"),
            preconditions: pre,
            effects: eff,
            cost: 50,
            duration_ms: 100,
        });

        let mut pre: Vec<String> = Vec::new();
        let mut eff: Vec<String> = Vec::new();
        pre.push(String::from_str("health_verified"));
        eff.push(String::from_str("complete"));
        actions.push(PlanningAction {
            name: String::from_str("finalize"),
            preconditions: pre,
            effects: eff,
            cost: 10,
            duration_ms: 50,
        });

        proof {
            assert(actions.deep_view() =~~= default_actions_spec());
        }
        actions
    }

    /// Heuristic estimate of the remaining cost to the goal.
    pub fn heuristic(&self, state: &PlanningState, intent: &Intent) -> (r: u64)
        ensures
            r as int == spec_heuristic(state@, intent.budget.max_cost),
    {
        let mut missing: u64 = 0;
        let complete_key = String::from_str("complete");
        if !state.contains_var(&complete_key) {
            missing = missing + 500;
        }
        match intent.budget.max_cost {
            Some(m) => {
                if state.accumulated_cost > m {
                    missing = missing + 100000;
                }
            }
            None => {}
        }
        missing
    }

    /// Check whether an action's preconditions are all set in the state.
    pub fn preconditions_met(&self, action: &PlanningAction, state: &PlanningState) -> (r: bool)
        ensures
            r == preconds_met(action@, state@.variables),
    {
        let mut i: usize = 0;
        while i < action.preconditions.len()
            invariant
                i <= action.preconditions@.len(),
                forall|j: int| 0 <= j < i
                    ==> has_var(state@.variables, #[trigger] action@.preconditions[j]),
            decreases action.preconditions@.len() - i,
        {
            if !state.contains_var(&action.preconditions[i]) {
                proof {
                    assert(!has_var(state@.variables, action@.preconditions[i as int]));
                }
                return false;
            }
            i = i + 1;
        }
        true
    }

    /// Apply an action to a state: set every effect variable and add the
    /// action's cost and duration. Fails (returns None) exactly when an
    /// accumulator would overflow its machine width.
    pub fn apply_action(&self, action: &PlanningAction, state: &PlanningState) -> (r: Option<
        PlanningState,
    >)
        ensures
            r is Some <==> state.accumulated_cost + action.cost <= u64::MAX
                && state.accumulated_time_ms + action.duration_ms <= u64::MAX,
            r matches Some(s) ==> {
                &&& forall|k: Seq<char>| has_var(s@.variables, k)
                    <==> (has_var(state@.variables, k) || action@.effects.contains(k))
                &&& s.accumulated_cost as int == state.accumulated_cost + action.cost
                &&& s.accumulated_time_ms as int
                    == state.accumulated_time_ms + action.duration_ms
            },
    {
        if state.accumulated_cost > u64::MAX - action.cost {
            return None;
        }
        if state.accumulated_time_ms > u64::MAX - action.duration_ms {
            return None;
        }
        let mut new_state = state.duplicate();
        let mut i: usize = 0;
        while i < action.effects.len()
            invariant
                i <= action.effects@.len(),
                forall|k: Seq<char>| has_var(new_state@.variables, k)
                    <==> (has_var(state@.variables, k)
                        || exists|j: int| 0 <= j < i && action@.effects[j] == k),
                new_state.accumulated_cost == state.accumulated_cost,
                new_state.accumulated_time_ms == state.accumulated_time_ms,
            decreases action.effects@.len() - i,
        {
            new_state.insert_var(&action.effects[i]);
            proof {
                assert(action@.effects[i as int] == action.effects@[i as int]@);
            }
            i = i + 1;
        }
        proof {
            assert forall|k: Seq<char>| has_var(new_state@.variables, k)
                <==> (has_var(state@.variables, k) || action@.effects.contains(k)) by {
                assert((exists|j: int| 0 <= j < action@.effects.len()
                    && action@.effects[j] == k) == action@.effects.contains(k));
            }
        }
        new_state.accumulated_cost = new_state.accumulated_cost + action.cost;
        new_state.accumulated_time_ms = new_state.accumulated_time_ms + action.duration_ms;
        Some(new_state)
    }

    /// Check whether the goal variable "complete" is set.
    pub fn is_goal_reached(&self, state: &PlanningState) -> (r: bool)
        ensures
            r == goal_reached(state@.variables),
    {
        let complete_key = String::from_str("complete");
        state.contains_var(&complete_key)
    }

    /// Check whether the state breaks the intent's budget caps.
    pub fn constraints_violated(&self, state: &PlanningState, intent: &Intent) -> (r: bool)
        ensures
            r == budget_violated(state@, intent.budget.max_cost, intent.budget.max_duration_ms),
    {
        match intent.budget.max_cost {
            Some(m) => {
                if state.accumulated_cost > m {
                    return true;
                }
            }
            None => {}
        }
        match intent.budget.max_duration_ms {
            Some(d) => {
                if state.accumulated_time_ms > d {
                    return true;
                }
            }
            None => {}
        }
        false
    }

    /// Assemble the searched steps into a plan: aggregate estimates are the
    /// exact sums over the steps, the strategy is heuristic, and confidence
    /// is fixed at 850 thousandths.
    fn steps_to_plan(&self, steps: Vec<Step>, intent: &Intent) -> (r: Plan)
        requires
            sum_step_costs(steps.deep_view()) <= u64::MAX,
            sum_step_durations(steps.deep_view()) <= u64::MAX,
        ensures
            r.intent_id == intent.id,
            r.strategy == PlanningStrategy::Heuristic,
            r@.steps == steps.deep_view(),
            r.estimated_cost == sum_step_costs(steps.deep_view()),
            r.estimated_latency_ms == sum_step_durations(steps.deep_view()),
            r.confidence_score == 850u32,
    {
        let ghost sv = steps.deep_view();
        let mut total_cost: u64 = 0;
        let mut total_time: u64 = 0;
        let mut i: usize = 0;
        proof {
            assert(sv.subrange(0, 0) =~= Seq::<StepV>::empty());
        }
        while i < steps.len()
            invariant
                i <= steps@.len(),
                sv == steps.deep_view(),
                sv.len() == steps@.len(),
                total_cost == sum_step_costs(sv.subrange(0, i as int)),
                total_time == sum_step_durations(sv.subrange(0, i as int)),
                sum_step_costs(sv) <= u64::MAX,
                sum_step_durations(sv) <= u64::MAX,
            decreases steps@.len() - i,
        {
            proof {
                assert(sv.subrange(0, i + 1).drop_last() =~= sv.subrange(0, i as int));
                assert(sv.subrange(0, i + 1).last() == sv[i as int]);
                lemma_sum_costs_prefix_le(sv, i + 1);
                lemma_sum_durations_prefix_le(sv, i + 1);
                lemma_sum_costs_nonneg(sv.subrange(0, i as int));
                lemma_sum_durations_nonneg(sv.subrange(0, i as int));
            }
            total_cost = total_cost + steps[i].estimated_cost;
            total_time = total_time + steps[i].estimated_duration_ms;
            i = i + 1;
        }
        proof {
            assert(sv.subrange(0, sv.len() as int) =~= sv);
        }

        let mut plan = Plan::new(intent.id, PlanningStrategy::Heuristic);
        plan.estimated_cost = total_cost;
        plan.estimated_latency_ms = total_time;
        plan.confidence_score = 850;
        plan.steps = steps;
        proof {
            assert(plan@.steps =~~= sv);
        }
        plan
    }

    /// Find the first registered action with the given name.
    fn find_action(&self, name: &String) -> (r: Option<usize>)
        ensures
            r matches Some(i) ==> i < self.actions@.len()
                && self.spec_actions()[i as int].name == name@
                && action_by_name(self.spec_actions(), name@)
                    == Some(self.spec_actions()[i as int]),
            r is None ==> action_by_name(self.spec_actions(), name@) is None,
    {
        let ghost av = self.spec_actions();
        let mut i: usize = 0;
        while i < self.actions.len()
            invariant
                i <= self.actions@.len(),
                av == self.spec_actions(),
                av.len() == self.actions@.len(),
                forall|j: int| 0 <= j < i ==> (#[trigger] av[j]).name != name@,
            decreases self.actions@.len() - i,
        {
            if self.actions[i].name == *name {
                proof {
                    assert(av[i as int].name == name@);
                    lemma_action_by_name_skip(av, name@, i as int);
                    assert(av.subrange(i as int, av.len() as int)[0] == av[i as int]);
                }
                return Some(i);
            }
            i = i + 1;
        }
        proof {
            lemma_action_by_name_skip(av, name@, av.len() as int);
            assert(av.subrange(av.len() as int, av.len() as int).len() == 0);
        }
        None
    }

    /// Check whether a plan is still valid against the given state: replay
    /// each step's action; the plan is invalid exactly when some registered
    /// step finds its preconditions unmet. Unregistered actions are treated
    /// as opaquely valid.
    pub fn validate_plan(&self, plan: &Plan, current_state: &PlanningState) -> (r: Result<
        bool,
        OrpheonError,
    >)
        ensures
            r matches Ok(b) && b == replay_ok(
                self.spec_actions(),
                plan@.steps,
                var_set(current_state@.variables),
            ),
    {
        let ghost av = self.spec_actions();
        let ghost sv = plan@.steps;
        let mut work = current_state.duplicate();
        let mut k: usize = 0;
        proof {
            assert(sv.subrange(0, sv.len() as int) =~= sv);
        }
        while k < plan.steps.len()
            invariant
                k <= plan.steps@.len(),
                av == self.spec_actions(),
                sv == plan@.steps,
                sv.len() == plan.steps@.len(),
                replay_ok(av, sv, var_set(current_state@.variables)) == replay_ok(
                    av,
                    sv.subrange(k as int, sv.len() as int),
                    var_set(work@.variables),
                ),
            decreases plan.steps@.len() - k,
        {
            let ghost suffix = sv.subrange(k as int, sv.len() as int);
            proof {
                assert(suffix[0] == sv[k as int]);
                assert(suffix.drop_first() =~= sv.subrange(k + 1, sv.len() as int));
            }
            match self.find_action(&plan.steps[k].action) {
                Some(ai) => {
                    let action = &self.actions[ai];
                    if !self.preconditions_met(action, &work) {
                        proof {
                            assert(!preconds_met_in(action@, var_set(work@.variables)));
                            assert(!replay_ok(av, suffix, var_set(work@.variables)));
                        }
                        return Ok(false);
                    }
                    let ghost pre_vars = var_set(work@.variables);
                    let ghost pre_seq = work@.variables;
                    apply_effects(&mut work, action);
                    proof {
                        assert forall|key: Seq<char>| var_set(work@.variables).contains(key)
                            == pre_vars.union(effects_set(action@)).contains(key) by {
                            assert(var_set(work@.variables).contains(key)
                                == has_var(work@.variables, key));
                            assert(pre_vars.contains(key) == has_var(pre_seq, key));
                            assert(effects_set(action@).contains(key)
                                == action@.effects.contains(key));
                        }
                        assert(var_set(work@.variables)
                            =~= pre_vars.union(effects_set(action@)));
                    }
                }
                None => {}
            }
            k = k + 1;
        }
        proof {
            assert(sv.subrange(sv.len() as int, sv.len() as int).len() == 0);
        }
        Ok(true)
    }

    /// Plan an intent: A* search from the initial state over the registered
    /// actions, pruning every successor that would break the intent's budget
    /// caps, until a state holding "complete" is reached. The returned plan
    /// is a linear chain of registered actions whose aggregate estimates are
    /// the exact sums over its steps; a non-empty plan never drives the
    /// initial state's accumulators past the budget caps. Failure — the
    /// exploration or time limit hit, or the whole space searched in vain —
    /// is reported as a planning failure naming the intent.
    #[verifier::rlimit(100)]
    pub fn plan(&self, intent: &Intent, initial_state: &PlanningState) -> (r: Result<
        Plan,
        OrpheonError,
    >)
        ensures
            r matches Ok(p) ==> {
                &&& p.intent_id == intent.id
                &&& p.strategy == PlanningStrategy::Heuristic
                &&& p.confidence_score == 850u32
                &&& plan_wf(p@)
                &&& linear_chain(p@.steps)
                &&& steps_from_actions(self.spec_actions(), p@.steps)
                &&& exists|idxs: Seq<int>|
                    idxs.len() == p@.steps.len()
                    && #[trigger] steps_replay(
                        self.spec_actions(),
                        idxs,
                        p@.steps,
                        var_set(initial_state@.variables),
                    )
                    && vars_after_steps(
                        self.spec_actions(),
                        idxs,
                        p@.steps,
                        var_set(initial_state@.variables),
                    ).contains("complete"@)
                &&& p@.steps.len() > 0 ==> {
                    &&& (intent.budget.max_cost matches Some(m)
                        ==> initial_state.accumulated_cost + p.estimated_cost <= m)
                    &&& (intent.budget.max_duration_ms matches Some(d)
                        ==> initial_state.accumulated_time_ms + p.estimated_latency_ms <= d)
                }
            },
            r matches Err(e) ==> (e matches OrpheonError::PlanningFailed { intent_id, message }
                && intent_id == intent.id
                && (message@ == "Exceeded maximum states explored"@
                    || message@ == "Exceeded maximum planning time"@
                    || message@ == "No valid plan found after exhaustive search"@)),
    {
        let ghost av = self.spec_actions();
        let ghost initial_v = initial_state@;
        let ghost max_cost = intent.budget.max_cost;
        let ghost max_duration = intent.budget.max_duration_ms;
        let start_ms = now_millis();

        let mut open_set: Vec<SearchNode> = Vec::new();
        let h0 = self.heuristic(initial_state, intent);
        let first = SearchNode {
            state: initial_state.duplicate(),
            steps: Vec::new(),
            g_cost: 0,
            h_cost: h0,
            f_cost: h0,
            idxs: Ghost(Seq::empty()),
        };
        proof {
            assert(first.steps.deep_view() =~~= Seq::<StepV>::empty());
            assert(var_set(first.state@.variables) == var_set(initial_v.variables));
            assert(first.inv(av, initial_v, max_cost, max_duration));
        }
        open_set.push(first);

        let mut states_explored: usize = 0;

        while open_set.len() > 0
            invariant
                av == self.spec_actions(),
                av.len() == self.actions@.len(),
                initial_v == initial_state@,
                max_cost == intent.budget.max_cost,
                max_duration == intent.budget.max_duration_ms,
                states_explored <= self.config.max_states_explored,
                forall|idx: int| 0 <= idx < open_set@.len()
                    ==> (#[trigger] open_set@[idx]).inv(av, initial_v, max_cost, max_duration),
            decreases self.config.max_states_explored - states_explored,
        {
            if states_explored >= self.config.max_states_explored {
                return Err(OrpheonError::PlanningFailed {
                    intent_id: intent.id,
                    message: String::from_str("Exceeded maximum states explored"),
                });
            }
            states_explored = states_explored + 1;

            let now = now_millis();
            let elapsed: i128 = now as i128 - start_ms as i128;
            if elapsed > self.config.max_planning_time_ms as i128 {
                return Err(OrpheonError::PlanningFailed {
                    intent_id: intent.id,
                    message: String::from_str("Exceeded maximum planning time"),
                });
            }

            let mut best: usize = 0;
            let mut bi: usize = 1;
            while bi < open_set.len()
                invariant
                    open_set@.len() > 0,
                    best < bi,
                    bi <= open_set@.len(),
                    forall|j: int| 0 <= j < bi
                        ==> open_set@[best as int].f_cost <= (#[trigger] open_set@[j]).f_cost,
                decreases open_set@.len() - bi,
            {
                if open_set[bi].f_cost < open_set[best].f_cost {
                    best = bi;
                }
                bi = bi + 1;
            }
            let ghost pre_pop = open_set@;
            let current = open_set.remove(best);
            proof {
                assert(current.inv(av, initial_v, max_cost, max_duration));
                assert forall|idx: int| 0 <= idx < open_set@.len()
                    implies (#[trigger] open_set@[idx]).inv(av, initial_v, max_cost, max_duration)
                    by {
                    if idx < best {
                        assert(open_set@[idx] == pre_pop[idx]);
                    } else {
                        assert(open_set@[idx] == pre_pop[idx + 1]);
                    }
                }
            }

            if self.is_goal_reached(&current.state) {
                let ghost stv = current.steps.deep_view();
                let ghost gidxs = current.idxs@;
                proof {
                    lemma_sum_costs_nonneg(stv);
                    lemma_sum_durations_nonneg(stv);
                    lemma_linear_chain_deps_wf(stv);
                    assert(var_set(current.state@.variables).contains("complete"@));
                    assert(vars_after_steps(av, gidxs, stv, var_set(initial_v.variables))
                        .contains("complete"@));
                }
                let p = self.steps_to_plan(current.steps, intent);
                proof {
                    assert(gidxs.len() == p@.steps.len()
                        && steps_replay(av, gidxs, p@.steps, var_set(initial_state@.variables))
                        && vars_after_steps(
                            av,
                            gidxs,
                            p@.steps,
                            var_set(initial_state@.variables),
                        ).contains("complete"@));
                }
                return Ok(p);
            }

            let mut ai: usize = 0;
            while ai < self.actions.len()
                invariant
                    av == self.spec_actions(),
                    av.len() == self.actions@.len(),
                    ai <= self.actions@.len(),
                    initial_v == initial_state@,
                    max_cost == intent.budget.max_cost,
                    max_duration == intent.budget.max_duration_ms,
                    current.inv(av, initial_v, max_cost, max_duration),
                    forall|idx: int| 0 <= idx < open_set@.len()
                        ==> (#[trigger] open_set@[idx]).inv(
                            av,
                            initial_v,
                            max_cost,
                            max_duration,
                        ),
                decreases self.actions@.len() - ai,
            {
                let action = &self.actions[ai];
                if self.preconditions_met(action, &current.state) {
                    match self.apply_action(action, &current.state) {
                        Some(new_state) => {
                            if !self.constraints_violated(&new_state, intent) {
                                let mut step = Step::new(
                                    action.name.as_str(),
                                    action.name.as_str(),
                                ).with_cost(action.cost).with_duration(action.duration_ms);
                                let mut new_steps = duplicate_steps(&current.steps);
                                if new_steps.len() > 0 {
                                    let last_id = new_steps[new_steps.len() - 1].id;
                                    step = step.depends_on(last_id);
                                }
                                let ghost old_sv = current.steps.deep_view();
                                let ghost step_v = step@;
                                new_steps.push(step);
                                let g = current.g_cost + action.cost;
                                let h = self.heuristic(&new_state, intent);
                                let f = if g <= u64::MAX - h {
                                    g + h
                                } else {
                                    u64::MAX
                                };
                                let node = SearchNode {
                                    state: new_state,
                                    steps: new_steps,
                                    g_cost: g,
                                    h_cost: h,
                                    f_cost: f,
                                    idxs: Ghost(current.idxs@.push(ai as int)),
                                };
                                proof {
                                    let nsv = node.steps.deep_view();
                                    assert(nsv =~~= old_sv.push(step_v));
                                    let init_set = var_set(initial_v.variables);
                                    assert(action@ == av[ai as int]);
                                    assert(step_v.action == av[ai as int].name);
                                    assert(step_v.estimated_cost == av[ai as int].cost);
                                    assert(step_v.estimated_duration_ms
                                        == av[ai as int].duration_ms);
                                    assert forall|q: int|
                                        0 <= q < av[ai as int].preconditions.len()
                                        implies var_set(current.state@.variables).contains(
                                            #[trigger] av[ai as int].preconditions[q],
                                        ) by {
                                        assert(has_var(
                                            current.state@.variables,
                                            av[ai as int].preconditions[q],
                                        ));
                                    }
                                    assert(preconds_met_in(
                                        av[ai as int],
                                        vars_after_steps(av, current.idxs@, old_sv, init_set),
                                    ));
                                    lemma_steps_replay_snoc(
                                        av,
                                        current.idxs@,
                                        old_sv,
                                        init_set,
                                        ai as int,
                                        step_v,
                                    );
                                    assert forall|k: Seq<char>|
                                        var_set(node.state@.variables).contains(k)
                                        == var_set(current.state@.variables).union(
                                            effects_set(av[ai as int]),
                                        ).contains(k) by {
                                        assert(var_set(node.state@.variables).contains(k)
                                            == has_var(node.state@.variables, k));
                                        assert(effects_set(av[ai as int]).contains(k)
                                            == av[ai as int].effects.contains(k));
                                    }
                                    assert(var_set(node.state@.variables)
                                        =~= var_set(current.state@.variables).union(
                                            effects_set(av[ai as int]),
                                        ));
                                    assert(var_set(node.state@.variables)
                                        == vars_after_steps(av, node.idxs@, nsv, init_set));
                                    assert(nsv.drop_last() =~= old_sv);
                                    assert(step_v.depends_on == if old_sv.len() == 0 {
                                        Seq::<Id>::empty()
                                    } else {
                                        seq![old_sv[old_sv.len() - 1].id]
                                    });
                                    assert forall|i: int| 0 <= i < nsv.len()
                                        implies (#[trigger] nsv[i]).depends_on == if i == 0 {
                                            Seq::<Id>::empty()
                                        } else {
                                            seq![nsv[i - 1].id]
                                        } by {
                                        if i < old_sv.len() {
                                            assert(nsv[i] == old_sv[i]);
                                            assert(linear_chain(old_sv));
                                            if i > 0 {
                                                assert(nsv[i - 1] == old_sv[i - 1]);
                                            }
                                        }
                                    }
                                    assert(linear_chain(nsv));
                                    assert forall|i: int| 0 <= i < nsv.len()
                                        implies exists|j: int| 0 <= j < av.len()
                                            && (#[trigger] av[j]).name
                                                == (#[trigger] nsv[i]).action
                                            && av[j].cost == nsv[i].estimated_cost
                                            && av[j].duration_ms
                                                == nsv[i].estimated_duration_ms by {
                                        if i < old_sv.len() {
                                            assert(nsv[i] == old_sv[i]);
                                            assert(steps_from_actions(av, old_sv));
                                        } else {
                                            assert(av[ai as int].name == nsv[i].action);
                                        }
                                    }
                                    assert(node.inv(av, initial_v, max_cost, max_duration));
                                }
                                open_set.push(node);
                            }
                        }
                        None => {}
                    }
                }
                ai = ai + 1;
            }
        }

        Err(OrpheonError::PlanningFailed {
            intent_id: intent.id,
            message: String::from_str("No valid plan found after exhaustive search"),
        })
    }
}

/// Set every effect variable of an action in a planning state, leaving the
/// accumulators alone.
fn apply_effects(work: &mut PlanningState, action: &PlanningAction)
    ensures
        forall|k: Seq<char>| has_var(final(work)@.variables, k)
            <==> (has_var(old(work)@.variables, k) || action@.effects.contains(k)),
        final(work).accumulated_cost == old(work).accumulated_cost,
        final(work).accumulated_time_ms == old(work).accumulated_time_ms,
{
    let mut e: usize = 0;
    while e < action.effects.len()
        invariant
            e <= action.effects@.len(),
            forall|k: Seq<char>| has_var(work@.variables, k)
                <==> (has_var(old(work)@.variables, k)
                    || exists|j: int| 0 <= j < e && action@.effects[j] == k),
            work.accumulated_cost == old(work).accumulated_cost,
            work.accumulated_time_ms == old(work).accumulated_time_ms,
        decreases action.effects@.len() - e,
    {
        work.insert_var(&action.effects[e]);
        proof {
            assert(action@.effects[e as int] == action.effects@[e as int]@);
        }
        e = e + 1;
    }
    proof {
        assert forall|k: Seq<char>| has_var(work@.variables, k)
            <==> (has_var(old(work)@.variables, k) || action@.effects.contains(k)) by {
            assert((exists|j: int| 0 <= j < action@.effects.len()
                && action@.effects[j] == k) == action@.effects.contains(k));
        }
    }
}

/// An exact copy of a step list.
fn duplicate_steps(v: &Vec<Step>) -> (r: Vec<Step>)
    ensures
        r.deep_view() == v.deep_view(),
{
    let mut out: Vec<Step> = Vec::new();
    let mut i: usize = 0;
    while i < v.len()
        invariant
            i <= v@.len(),
            out@.len() == i,
            forall|j: int| 0 <= j < i ==> #[trigger] out@[j]@ == v@[j]@,
        decreases v@.len() - i,
    {
        out.push(v[i].duplicate());
        i = i + 1;
    }
    proof {
        assert(out.deep_view() =~~= v.deep_view());
    }
    out
}

/// Skipping a prefix of actions none of which carries the name leaves the
/// first match unchanged.
pub proof fn lemma_action_by_name_skip(actions: Seq<PlanningActionV>, name: Seq<char>, i: int)
    requires
        0 <= i <= actions.len(),
        forall|j: int| 0 <= j < i ==> (#[trigger] actions[j]).name != name,
    ensures
        action_by_name(actions, name) == action_by_name(
            actions.subrange(i, actions.len() as int),
            name,
        ),
    decreases i,
{
    if i == 0 {
        assert(actions.subrange(0, actions.len() as int) =~= actions);
    } else {
        lemma_action_by_name_skip(actions, name, i - 1);
        let tail = actions.subrange(i - 1, actions.len() as int);
        assert(tail[0] == actions[i - 1]);
        assert(tail[0].name != name);
        assert(tail.drop_first() =~= actions.subrange(i, actions.len() as int));
    }
}

/// The default action catalog as values: allocate, provision, configure the
/// network, deploy, verify health, finalize — with the costs (hundredths) and
/// durations (milliseconds) listed.
pub open spec fn default_actions_spec() -> Seq<PlanningActionV> {
    seq![
        PlanningActionV {
            name: "allocate_resource"@,
            preconditions: Seq::empty(),
            effects: seq!["resource_allocated"@],
            cost: 100u64,
            duration_ms: 100u64,
        },
        PlanningActionV {
            name: "provision_compute"@,
            preconditions: seq!["resource_allocated"@],
            effects: seq!["compute_ready"@],
            cost: 500u64,
            duration_ms: 500u64,
        },
        PlanningActionV {
            name: "configure_network"@,
            preconditions: seq!["compute_ready"@],
            effects: seq!["network_configured"@],
            cost: 200u64,
            duration_ms: 200u64,
        },
        PlanningActionV {
            name: "deploy_workload"@,
            preconditions: seq!["compute_ready"@, "network_configured"@],
            effects: seq!["workload_deployed"@],
            cost: 300u64,
            duration_ms: 1000u64,
        },
        PlanningActionV {
            name: "verify_health"@,
            preconditions: seq!["workload_deployed"@],
            effects: seq!["health_verified"@],
            cost: 50u64,
            duration_ms: 100u64,
        },
        PlanningActionV {
            name: "finalize"@,
            preconditions: seq!["health_verified"@],
            effects: seq!["complete"@],
            cost: 10u64,
            duration_ms: 50u64,
        },
    ]
}

/// Step costs are non-negative, so sums of step costs are non-negative.
pub proof fn lemma_sum_costs_nonneg(ss: Seq<StepV>)
    ensures
        sum_step_costs(ss) >= 0,
    decreases ss.len(),
{
    if ss.len() > 0 {
        lemma_sum_costs_nonneg(ss.drop_last());
    }
}

/// Step durations are non-negative, so sums of step durations are
/// non-negative.
pub proof fn lemma_sum_durations_nonneg(ss: Seq<StepV>)
    ensures
        sum_step_durations(ss) >= 0,
    decreases ss.len(),
{
    if ss.len() > 0 {
        lemma_sum_durations_nonneg(ss.drop_last());
    }
}

/// A prefix's cost sum never exceeds the whole sequence's.
pub proof fn lemma_sum_costs_prefix_le(ss: Seq<StepV>, i: int)
    requires
        0 <= i <= ss.len(),
    ensures
        sum_step_costs(ss.subrange(0, i)) <= sum_step_costs(ss),
    decreases ss.len() - i,
{
    if i == ss.len() {
        assert(ss.subrange(0, i) =~= ss);
    } else {
        lemma_sum_costs_prefix_le(ss, i + 1);
        assert(ss.subrange(0, i + 1).drop_last() =~= ss.subrange(0, i));
        assert(ss.subrange(0, i + 1).last() == ss[i]);
    }
}

/// A prefix's duration sum never exceeds the whole sequence's.
pub proof fn lemma_sum_durations_prefix_le(ss: Seq<StepV>, i: int)
    requires
        0 <= i <= ss.len(),
    ensures
        sum_step_durations(ss.subrange(0, i)) <= sum_step_durations(ss),
    decreases ss.len() - i,
{
    if i == ss.len() {
        assert(ss.subrange(0, i) =~= ss);
    } else {
        lemma_sum_durations_prefix_le(ss, i + 1);
        assert(ss.subrange(0, i + 1).drop_last() =~= ss.subrange(0, i));
        assert(ss.subrange(0, i + 1).last() == ss[i]);
    }
}

} // verus!
