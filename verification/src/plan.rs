//! Plans: directed acyclic graphs of steps proposed to achieve an intent.
//! In every well-formed plan, step dependencies reference only earlier steps,
//! and the plan's cost and latency estimates are the sums over its steps.

use vstd::prelude::*;

use crate::ids::{Id, fresh_id};

verus! {

/// Strategy a planner used to assemble a plan.
#[derive(Debug, Clone, Copy, PartialEq, Eq, Structural)]
pub enum PlanningStrategy {
    /// A fixed, rule-driven composition.
    Deterministic,
    /// A heuristic search over registered actions.
    Heuristic,
}

/// A named action invocation with cost and duration estimates and
/// dependencies on earlier steps. Costs are in hundredths of a unit.
#[derive(Debug, Clone)]
pub struct Step {
    /// Unique identifier for this step.
    pub id: Id,
    /// Human-readable name of the step.
    pub name: String,
    /// The registered action this step invokes.
    pub action: String,
    /// Estimated cost, in hundredths of a currency unit.
    pub estimated_cost: u64,
    /// Estimated duration in milliseconds.
    pub estimated_duration_ms: u64,
    /// Ids of steps that must complete before this one.
    pub depends_on: Vec<Id>,
}

/// Mathematical value of a step.
#[verifier::ext_equal]
pub struct StepV {
    /// See [`Step::id`].
    pub id: Id,
    /// See [`Step::name`].
    pub name: Seq<char>,
    /// See [`Step::action`].
    pub action: Seq<char>,
    /// See [`Step::estimated_cost`].
    pub estimated_cost: u64,
    /// See [`Step::estimated_duration_ms`].
    pub estimated_duration_ms: u64,
    /// See [`Step::depends_on`].
    pub depends_on: Seq<Id>,
}

impl View for Step {
    type V = StepV;

    open spec fn view(&self) -> StepV {
        StepV {
            id: self.id,
            name: self.name@,
            action: self.action@,
            estimated_cost: self.estimated_cost,
            estimated_duration_ms: self.estimated_duration_ms,
            depends_on: self.depends_on@,
        }
    }
}

impl DeepView for Step {
    type V = StepV;

    open spec fn deep_view(&self) -> StepV {
        self.view()
    }
}

impl Step {
    /// A new step with a fresh id, no cost or duration, and no dependencies.
    pub fn new(name: &str, action: &str) -> (r: Self)
        ensures
            r.name@ == name@,
            r.action@ == action@,
            r.estimated_cost == 0u64,
            r.estimated_duration_ms == 0u64,
            r.depends_on@ == Seq::<Id>::empty(),
    {
        let r = Step {
            id: fresh_id(),
            name: name.to_owned(),
            action: action.to_owned(),
            estimated_cost: 0,
            estimated_duration_ms: 0,
            depends_on: Vec::new(),
        };
        proof {
            assert(r.depends_on@ =~= Seq::<Id>::empty());
        }
        r
    }

    /// Set the estimated cost (hundredths of a unit).
    pub fn with_cost(self, cost: u64) -> (r: Self)
        ensures
            r@ == (StepV { estimated_cost: cost, ..self@ }),
    {
        Step { estimated_cost: cost, ..self }
    }

    /// Set the estimated duration.
    pub fn with_duration(self, duration_ms: u64) -> (r: Self)
        ensures
            r@ == (StepV { estimated_duration_ms: duration_ms, ..self@ }),
    {
        Step { estimated_duration_ms: duration_ms, ..self }
    }

    /// Add a dependency on another step.
    pub fn depends_on(self, step_id: Id) -> (r: Self)
        ensures
            r@ == (StepV { depends_on: self@.depends_on.push(step_id), ..self@ }),
    {
        let mut s = self;
        s.depends_on.push(step_id);
        s
    }

    /// An exact copy of this step.
    pub fn duplicate(&self) -> (r: Self)
        ensures
            r@ == self@,
    {
        let mut deps: Vec<Id> = Vec::new();
        let mut i: usize = 0;
        while i < self.depends_on.len()
            invariant
                i <= self.depends_on@.len(),
                deps@ == self.depends_on@.subrange(0, i as int),
            decreases self.depends_on@.len() - i,
        {
            deps.push(self.depends_on[i]);
            proof {
                assert(deps@ =~= self.depends_on@.subrange(0, i + 1));
            }
            i = i + 1;
        }
        proof {
            assert(self.depends_on@.subrange(0, self.depends_on@.len() as int)
                =~= self.depends_on@);
        }
        Step {
            id: self.id,
            name: self.name.clone(),
            action: self.action.clone(),
            estimated_cost: self.estimated_cost,
            estimated_duration_ms: self.estimated_duration_ms,
            depends_on: deps,
        }
    }
}

/// Sum of the steps' estimated costs.
pub open spec fn sum_step_costs(ss: Seq<StepV>) -> int
    decreases ss.len(),
{
    if ss.len() == 0 {
        0
    } else {
        sum_step_costs(ss.drop_last()) + ss.last().estimated_cost
    }
}

/// Sum of the steps' estimated durations.
pub open spec fn sum_step_durations(ss: Seq<StepV>) -> int
    decreases ss.len(),
{
    if ss.len() == 0 {
        0
    } else {
        sum_step_durations(ss.drop_last()) + ss.last().estimated_duration_ms
    }
}

/// Step dependencies reference only earlier steps of the same plan: the
/// dependency graph is acyclic by construction.
pub open spec fn plan_deps_wf(ss: Seq<StepV>) -> bool {
    forall|i: int, k: int|
        0 <= i < ss.len() && 0 <= k < ss[i].depends_on.len()
            ==> exists|j: int|
                0 <= j < i && (#[trigger] ss[j]).id == #[trigger] ss[i].depends_on[k]
}

/// The steps form a linear chain: the first step has no dependency, and every
/// later step depends exactly on its predecessor.
pub open spec fn linear_chain(ss: Seq<StepV>) -> bool {
    forall|i: int| 0 <= i < ss.len()
        ==> (#[trigger] ss[i]).depends_on
            == if i == 0 { Seq::<Id>::empty() } else { seq![ss[i - 1].id] }
}

/// A linear chain of steps is a well-formed dependency graph: every
/// dependency points at the immediately preceding step.
pub proof fn lemma_linear_chain_deps_wf(ss: Seq<StepV>)
    requires
        linear_chain(ss),
    ensures
        plan_deps_wf(ss),
{
    assert forall|i: int, k: int|
        0 <= i < ss.len() && 0 <= k < ss[i].depends_on.len()
            implies exists|j: int|
                0 <= j < i && (#[trigger] ss[j]).id == #[trigger] ss[i].depends_on[k] by {
        assert(ss[i].depends_on == if i == 0 { Seq::<Id>::empty() } else { seq![ss[i - 1].id] });
        assert(i > 0);
        assert(ss[i - 1].id == ss[i].depends_on[k]);
    }
}

/// A plan: a DAG of steps with aggregate estimates. The confidence score is
/// in thousandths (850 stands for 0.85).
#[derive(Debug, Clone)]
pub struct Plan {
    /// Unique identifier for this plan.
    pub id: Id,
    /// The intent this plan serves.
    pub intent_id: Id,
    /// The strategy that produced the plan.
    pub strategy: PlanningStrategy,
    /// The steps, in execution order.
    pub steps: Vec<Step>,
    /// Estimated total cost, in hundredths of a unit.
    pub estimated_cost: u64,
    /// Estimated total latency in milliseconds.
    pub estimated_latency_ms: u64,
    /// Confidence in the plan, in thousandths (0 to 1000).
    pub confidence_score: u32,
}

/// Mathematical value of a plan.
#[verifier::ext_equal]
pub struct PlanV {
    /// See [`Plan::id`].
    pub id: Id,
    /// See [`Plan::intent_id`].
    pub intent_id: Id,
    /// See [`Plan::strategy`].
    pub strategy: PlanningStrategy,
    /// See [`Plan::steps`].
    pub steps: Seq<StepV>,
    /// See [`Plan::estimated_cost`].
    pub estimated_cost: u64,
    /// See [`Plan::estimated_latency_ms`].
    pub estimated_latency_ms: u64,
    /// See [`Plan::confidence_score`].
    pub confidence_score: u32,
}

impl View for Plan {
    type V = PlanV;

    open spec fn view(&self) -> PlanV {
        PlanV {
            id: self.id,
            intent_id: self.intent_id,
            strategy: self.strategy,
            steps: Seq::new(self.steps@.len(), |i: int| self.steps@[i]@),
            estimated_cost: self.estimated_cost,
            estimated_latency_ms: self.estimated_latency_ms,
            confidence_score: self.confidence_score,
        }
    }
}

/// A structurally sound plan: dependencies point backwards and the aggregate
/// estimates are the sums over the steps.
pub open spec fn plan_wf(p: PlanV) -> bool {
    &&& plan_deps_wf(p.steps)
    &&& p.estimated_cost == sum_step_costs(p.steps)
    &&& p.estimated_latency_ms == sum_step_durations(p.steps)
}

impl DeepView for Plan {
    type V = PlanV;

    open spec fn deep_view(&self) -> PlanV {
        self.view()
    }
}

impl Plan {
    /// A new empty plan for the given intent, with a fresh id and zero
    /// estimates.
    pub fn new(intent_id: Id, strategy: PlanningStrategy) -> (r: Self)
        ensures
            r.intent_id == intent_id,
            r.strategy == strategy,
            r@.steps == Seq::<StepV>::empty(),
            r.estimated_cost == 0u64,
            r.estimated_latency_ms == 0u64,
            r.confidence_score == 0u32,
            plan_wf(r@),
    {
        let r = Plan {
            id: fresh_id(),
            intent_id,
            strategy,
            steps: Vec::new(),
            estimated_cost: 0,
            estimated_latency_ms: 0,
            confidence_score: 0,
        };
        proof {
            assert(r@.steps =~= Seq::<StepV>::empty());
        }
        r
    }

    /// An exact copy of this plan.
    pub fn duplicate(&self) -> (r: Self)
        ensures
            r@ == self@,
    {
        let mut steps: Vec<Step> = Vec::new();
        let mut i: usize = 0;
        while i < self.steps.len()
            invariant
                i <= self.steps@.len(),
                steps@.len() == i,
                forall|j: int| 0 <= j < i ==> #[trigger] steps@[j]@ == self.steps@[j]@,
            decreases self.steps@.len() - i,
        {
            steps.push(self.steps[i].duplicate());
            i = i + 1;
        }
        let r = Plan {
            id: self.id,
            intent_id: self.intent_id,
            strategy: self.strategy,
            steps,
            estimated_cost: self.estimated_cost,
            estimated_latency_ms: self.estimated_latency_ms,
            confidence_score: self.confidence_score,
        };
        proof {
            assert(r@.steps =~= self@.steps);
        }
        r
    }
}

} // verus!
