//! The execution engine: it holds the intent records, plans and artifacts,
//! drives pending intents through planning and simulated execution, and
//! enforces the status machine — once a record is terminal its status never
//! changes, and every change follows an allowed transition.

use vstd::prelude::*;

use crate::artifact::{ArtifactV, ExecutionArtifact, ExecutionEvent, Outcome, event_views};
use crate::ids::Id;
use crate::intent::{Intent, IntentV};
use crate::plan::{Plan, PlanV, StepV, sum_step_costs};
use crate::planner::{AStarPlanner, PlanningState};
use crate::store::InMemoryStateStore;
use crate::types::{IntentStatus, status_step_allowed};

verus! {

/// Record of an intent with its status and what has been produced for it.
#[derive(Debug, Clone)]
pub struct IntentRecord {
    /// The intent.
    pub intent: Intent,
    /// Current status.
    pub status: IntentStatus,
    /// Associated plan ID (if generated).
    pub plan_id: Option<Id>,
    /// Associated artifact ID (if complete).
    pub artifact_id: Option<Id>,
    /// Error message (if failed).
    pub error: Option<String>,
}

/// Mathematical value of an intent record.
#[verifier::ext_equal]
pub struct RecordV {
    /// See [`IntentRecord::intent`].
    pub intent: IntentV,
    /// See [`IntentRecord::status`].
    pub status: IntentStatus,
    /// See [`IntentRecord::plan_id`].
    pub plan_id: Option<Id>,
    /// See [`IntentRecord::artifact_id`].
    pub artifact_id: Option<Id>,
    /// See [`IntentRecord::error`].
    pub error: Option<Seq<char>>,
}

impl View for IntentRecord {
    type V = RecordV;

    open spec fn view(&self) -> RecordV {
        RecordV {
            intent: self.intent@,
            status: self.status,
            plan_id: self.plan_id,
            artifact_id: self.artifact_id,
            error: match &self.error {
                Option::Some(e) => Option::Some(e@),
                Option::None => Option::None,
            },
        }
    }
}

impl DeepView for IntentRecord {
    type V = RecordV;

    open spec fn deep_view(&self) -> RecordV {
        self.view()
    }
}

impl IntentRecord {
    /// An exact copy of this record.
    pub fn duplicate(&self) -> (r: Self)
        ensures
            r@ == self@,
    {
        IntentRecord {
            intent: self.intent.duplicate(),
            status: self.status,
            plan_id: self.plan_id,
            artifact_id: self.artifact_id,
            error: match &self.error {
                Some(e) => Some(e.clone()),
                None => None,
            },
        }
    }
}

/// An id-keyed table has the id.
pub open spec fn assoc_has<T>(m: Seq<(Id, T)>, id: Id) -> bool {
    exists|i: int| 0 <= i < m.len() && m[i].0 == id
}

/// The unique slot of an id in a table with distinct ids.
pub open spec fn assoc_slot<T>(m: Seq<(Id, T)>, id: Id) -> int {
    choose|i: int| 0 <= i < m.len() && m[i].0 == id
}

/// The value under an id, if present.
pub open spec fn assoc_get<T>(m: Seq<(Id, T)>, id: Id) -> Option<T> {
    if assoc_has(m, id) {
        Option::Some(m[assoc_slot(m, id)].1)
    } else {
        Option::None
    }
}

/// The ids of a table are distinct.
pub open spec fn assoc_unique<T>(m: Seq<(Id, T)>) -> bool {
    forall|i: int, j: int| 0 <= i < j < m.len()
        ==> (#[trigger] m[i]).0 != (#[trigger] m[j]).0
}

/// The table with the id bound to the value: replaced in place when present,
/// added at the end when new.
pub open spec fn assoc_put<T>(m: Seq<(Id, T)>, id: Id, v: T) -> Seq<(Id, T)> {
    if assoc_has(m, id) {
        m.update(assoc_slot(m, id), (id, v))
    } else {
        m.push((id, v))
    }
}

/// Binding an id leaves every other id's binding alone, binds the id to the
/// value, and keeps ids distinct.
pub proof fn lemma_assoc_put<T>(m: Seq<(Id, T)>, id: Id, v: T)
    requires
        assoc_unique(m),
    ensures
        assoc_unique(assoc_put(m, id, v)),
        assoc_get(assoc_put(m, id, v), id) == Option::Some(v),
        forall|k: Id| k != id ==> assoc_get(assoc_put(m, id, v), k) == assoc_get(m, k),
{
    let m2 = assoc_put(m, id, v);
    if assoc_has(m, id) {
        let i = assoc_slot(m, id);
        assert(0 <= i < m.len() && m[i].0 == id);
        assert(m2[i].0 == id);
        assert(assoc_has(m2, id));
        let i2 = assoc_slot(m2, id);
        assert(m2[i2].0 == id);
        if i2 != i {
            assert(m[i2].0 == id);
            assert(false);
        }
        assert forall|a: int, b: int| 0 <= a < b < m2.len()
            implies (#[trigger] m2[a]).0 != (#[trigger] m2[b]).0 by {
            assert(m2[a].0 == m[a].0);
            assert(m2[b].0 == m[b].0);
        }
        assert forall|k: Id| k != id
            implies assoc_get(m2, k) == assoc_get(m, k) by {
            if assoc_has(m, k) {
                let j = assoc_slot(m, k);
                assert(m[j].0 == k && j != i);
                assert(m2[j].0 == k);
                assert(assoc_has(m2, k));
                let j2 = assoc_slot(m2, k);
                assert(m2[j2].0 == k);
                if j2 != j {
                    if j2 == i {
                        assert(false);
                    }
                    assert(m[j2].0 == k);
                    assert(false);
                }
            } else {
                if assoc_has(m2, k) {
                    let j2 = assoc_slot(m2, k);
                    assert(m2[j2].0 == k);
                    if j2 == i {
                        assert(false);
                    }
                    assert(m[j2].0 == k);
                    assert(false);
                }
            }
        }
    } else {
        assert(m2 == m.push((id, v)));
        assert(m2[m.len() as int].0 == id);
        assert(assoc_has(m2, id));
        let i2 = assoc_slot(m2, id);
        assert(m2[i2].0 == id);
        if i2 != m.len() {
            assert(m[i2].0 == id);
            assert(false);
        }
        assert forall|a: int, b: int| 0 <= a < b < m2.len()
            implies (#[trigger] m2[a]).0 != (#[trigger] m2[b]).0 by {
            if b == m.len() {
                assert(m2[a] == m[a]);
                if m[a].0 == id {
                    assert(assoc_has(m, id));
                    assert(false);
                }
            } else {
                assert(m2[a] == m[a] && m2[b] == m[b]);
            }
        }
        assert forall|k: Id| k != id
            implies assoc_get(m2, k) == assoc_get(m, k) by {
            if assoc_has(m, k) {
                let j = assoc_slot(m, k);
                assert(m[j].0 == k);
                assert(m2[j].0 == k);
                assert(assoc_has(m2, k));
                let j2 = assoc_slot(m2, k);
                assert(m2[j2].0 == k);
                if j2 != j {
                    if j2 == m.len() {
                        assert(false);
                    }
                    assert(m[j2].0 == k);
                    assert(false);
                }
            } else {
                if assoc_has(m2, k) {
                    let j2 = assoc_slot(m2, k);
                    assert(m2[j2].0 == k);
                    if j2 == m.len() {
                        assert(false);
                    }
                    assert(m[j2].0 == k);
                    assert(false);
                }
            }
        }
    }
}

/// The first record whose status is Received, in table order.
pub open spec fn first_received(m: Seq<(Id, RecordV)>) -> Option<Id>
    decreases m.len(),
{
    if m.len() == 0 {
        Option::None
    } else if m[0].1.status == IntentStatus::Received {
        Option::Some(m[0].0)
    } else {
        first_received(m.drop_first())
    }
}

/// Shared application state: the intent, plan and artifact tables, the
/// planner, and the state store.
#[derive(Debug)]
pub struct AppState {
    /// Intent records, keyed by intent id.
    pub intents: Vec<(Id, IntentRecord)>,
    /// Generated plans, keyed by plan id.
    pub plans: Vec<(Id, Plan)>,
    /// Execution artifacts, keyed by artifact id.
    pub artifacts: Vec<(Id, ExecutionArtifact)>,
    /// The planner engine.
    pub planner: AStarPlanner,
    /// The state store.
    pub state_store: InMemoryStateStore,
}

impl AppState {
    /// The intent table, as values.
    pub open spec fn intents_v(self) -> Seq<(Id, RecordV)> {
        self.intents.deep_view()
    }

    /// The plan table, as values.
    pub open spec fn plans_v(self) -> Seq<(Id, PlanV)> {
        self.plans.deep_view()
    }

    /// The artifact table, as values.
    pub open spec fn artifacts_v(self) -> Seq<(Id, ArtifactV)> {
        self.artifacts.deep_view()
    }

    /// The tables' invariant: ids are distinct and each row is keyed by the
    /// id its value carries; the state store is well-formed.
    pub open spec fn wf(self) -> bool {
        &&& assoc_unique(self.intents_v())
        &&& assoc_unique(self.plans_v())
        &&& assoc_unique(self.artifacts_v())
        &&& forall|i: int| 0 <= i < self.intents_v().len()
            ==> (#[trigger] self.intents_v()[i]).1.intent.id == self.intents_v()[i].0
        &&& forall|i: int| 0 <= i < self.plans_v().len()
            ==> (#[trigger] self.plans_v()[i]).1.id == self.plans_v()[i].0
        &&& forall|i: int| 0 <= i < self.artifacts_v().len()
            ==> (#[trigger] self.artifacts_v()[i]).1.id == self.artifacts_v()[i].0
        &&& self.state_store.wf()
    }

    /// A new application state with the default planner and an empty store.
    pub fn new() -> (r: Self)
        ensures
            r.intents_v() == Seq::<(Id, RecordV)>::empty(),
            r.plans_v() == Seq::<(Id, PlanV)>::empty(),
            r.artifacts_v() == Seq::<(Id, ArtifactV)>::empty(),
            r.wf(),
    {
        let r = AppState {
            intents: Vec::new(),
            plans: Vec::new(),
            artifacts: Vec::new(),
            planner: AStarPlanner::new(),
            state_store: InMemoryStateStore::new(),
        };
        proof {
            assert(r.intents_v() =~~= Seq::<(Id, RecordV)>::empty());
            assert(r.plans_v() =~~= Seq::<(Id, PlanV)>::empty());
            assert(r.artifacts_v() =~~= Seq::<(Id, ArtifactV)>::empty());
        }
        r
    }

    fn find_intent_slot(&self, id: Id) -> (r: Option<usize>)
        requires
            assoc_unique(self.intents_v()),
        ensures
            r matches Some(i) ==> i < self.intents_v().len()
                && self.intents_v()[i as int].0 == id
                && assoc_has(self.intents_v(), id)
                && assoc_slot(self.intents_v(), id) == i as int,
            r is None ==> !assoc_has(self.intents_v(), id),
    {
        let ghost m = self.intents_v();
        let mut i: usize = 0;
        while i < self.intents.len()
            invariant
                i <= self.intents@.len(),
                m == self.intents_v(),
                m.len() == self.intents@.len(),
                forall|j: int| 0 <= j < i ==> (#[trigger] m[j]).0 != id,
                assoc_unique(m),
            decreases self.intents@.len() - i,
        {
            if self.intents[i].0 == id {
                proof {
                    assert(m[i as int].0 == id);
                    assert(assoc_has(m, id));
                    let s = assoc_slot(m, id);
                    assert(m[s].0 == id);
                    if s != i {
                        assert(false);
                    }
                }
                return Some(i);
            }
            i = i + 1;
        }
        proof {
            if assoc_has(m, id) {
                let s = assoc_slot(m, id);
                assert(m[s].0 == id);
                assert(false);
            }
        }
        None
    }

    fn find_plan_slot(&self, id: Id) -> (r: Option<usize>)
        requires
            assoc_unique(self.plans_v()),
        ensures
            r matches Some(i) ==> i < self.plans_v().len()
                && self.plans_v()[i as int].0 == id
                && assoc_has(self.plans_v(), id)
                && assoc_slot(self.plans_v(), id) == i as int,
            r is None ==> !assoc_has(self.plans_v(), id),
    {
        let ghost m = self.plans_v();
        let mut i: usize = 0;
        while i < self.plans.len()
            invariant
                i <= self.plans@.len(),
                m == self.plans_v(),
                m.len() == self.plans@.len(),
                forall|j: int| 0 <= j < i ==> (#[trigger] m[j]).0 != id,
                assoc_unique(m),
            decreases self.plans@.len() - i,
        {
            if self.plans[i].0 == id {
                proof {
                    assert(m[i as int].0 == id);
                    assert(assoc_has(m, id));
                    let s = assoc_slot(m, id);
                    assert(m[s].0 == id);
                    if s != i {
                        assert(false);
                    }
                }
                return Some(i);
            }
            i = i + 1;
        }
        proof {
            if assoc_has(m, id) {
                let s = assoc_slot(m, id);
                assert(m[s].0 == id);
                assert(false);
            }
        }
        None
    }

    fn find_artifact_slot(&self, id: Id) -> (r: Option<usize>)
        requires
            assoc_unique(self.artifacts_v()),
        ensures
            r matches Some(i) ==> i < self.artifacts_v().len()
                && self.artifacts_v()[i as int].0 == id
                && assoc_has(self.artifacts_v(), id)
                && assoc_slot(self.artifacts_v(), id) == i as int,
            r is None ==> !assoc_has(self.artifacts_v(), id),
    {
        let ghost m = self.artifacts_v();
        let mut i: usize = 0;
        while i < self.artifacts.len()
            invariant
                i <= self.artifacts@.len(),
                m == self.artifacts_v(),
                m.len() == self.artifacts@.len(),
                forall|j: int| 0 <= j < i ==> (#[trigger] m[j]).0 != id,
                assoc_unique(m),
            decreases self.artifacts@.len() - i,
        {
            if self.artifacts[i].0 == id {
                proof {
                    assert(m[i as int].0 == id);
                    assert(assoc_has(m, id));
                    let s = assoc_slot(m, id);
                    assert(m[s].0 == id);
                    if s != i {
                        assert(false);
                    }
                }
                return Some(i);
            }
            i = i + 1;
        }
        proof {
            if assoc_has(m, id) {
                let s = assoc_slot(m, id);
                assert(m[s].0 == id);
                assert(false);
            }
        }
        None
    }

    /// Store an intent: a fresh record in Received state, replacing any
    /// record under the same intent id.
    pub fn store_intent(&mut self, intent: Intent)
        requires
            old(self).wf(),
        ensures
            final(self).wf(),
            final(self).intents_v() == assoc_put(
                old(self).intents_v(),
                intent.id,
                (RecordV {
                    intent: intent@,
                    status: IntentStatus::Received,
                    plan_id: Option::None,
                    artifact_id: Option::None,
                    error: Option::None,
                }),
            ),
            final(self).plans_v() == old(self).plans_v(),
            final(self).artifacts_v() == old(self).artifacts_v(),
            final(self).state_store@ == old(self).state_store@,
    {
        let id = intent.id;
        let record = IntentRecord {
            intent,
            status: IntentStatus::Received,
            plan_id: None,
            artifact_id: None,
            error: None,
        };
        let ghost rv = record@;
        let ghost m = self.intents_v();
        proof {
            lemma_assoc_put(m, id, rv);
        }
        match self.find_intent_slot(id) {
            Some(i) => {
                let slot = &mut self.intents[i];
                slot.1 = record;
                proof {
                    assert(self.intents_v() =~~= assoc_put(m, id, rv));
                }
            }
            None => {
                self.intents.push((id, record));
                proof {
                    assert(self.intents_v() =~~= assoc_put(m, id, rv));
                }
            }
        }
        proof {
            lemma_wf_after_intents_put(*old(self), *self, id, rv);
        }
    }

    /// Get an intent record by intent id.
    pub fn get_intent(&self, id: Id) -> (r: Option<IntentRecord>)
        requires
            self.wf(),
        ensures
            match assoc_get(self.intents_v(), id) {
                Option::Some(rec) => r matches Some(x) && x@ == rec,
                Option::None => r is None,
            },
    {
        match self.find_intent_slot(id) {
            Some(i) => Some(self.intents[i].1.duplicate()),
            None => None,
        }
    }

    /// Update an intent's status. The change is applied only when the record
    /// exists, is not terminal, and the transition follows the status graph;
    /// otherwise nothing changes. Returns whether the status was changed.
    pub fn update_intent_status(&mut self, id: Id, status: IntentStatus) -> (r: bool)
        requires
            old(self).wf(),
        ensures
            final(self).wf(),
            ({
                let m = old(self).intents_v();
                match assoc_get(m, id) {
                    Option::Some(rec) => if !rec.status.spec_is_terminal()
                        && status_step_allowed(rec.status, status) {
                        &&& r
                        &&& final(self).intents_v() == assoc_put(
                            m,
                            id,
                            (RecordV { status, ..rec }),
                        )
                    } else {
                        &&& !r
                        &&& final(self).intents_v() == m
                    },
                    Option::None => !r && final(self).intents_v() == m,
                }
            }),
            final(self).plans_v() == old(self).plans_v(),
            final(self).artifacts_v() == old(self).artifacts_v(),
            final(self).state_store@ == old(self).state_store@,
    {
        let ghost m = self.intents_v();
        match self.find_intent_slot(id) {
            Some(i) => {
                let current = self.intents[i].1.status;
                let allowed = !current.is_terminal() && match (current, status) {
                    (IntentStatus::Received, IntentStatus::Planning) => true,
                    (IntentStatus::Planning, IntentStatus::Negotiating) => true,
                    (IntentStatus::Planning, IntentStatus::Executing) => true,
                    (IntentStatus::Planning, IntentStatus::Failed) => true,
                    (IntentStatus::Negotiating, IntentStatus::Executing) => true,
                    (IntentStatus::Negotiating, IntentStatus::Failed) => true,
                    (IntentStatus::Executing, IntentStatus::Compensating) => true,
                    (IntentStatus::Executing, IntentStatus::Complete) => true,
                    (IntentStatus::Executing, IntentStatus::Failed) => true,
                    (IntentStatus::Compensating, IntentStatus::Complete) => true,
                    (IntentStatus::Compensating, IntentStatus::Failed) => true,
                    (_, IntentStatus::Cancelled) => true,
                    _ => false,
                };
                if allowed {
                    let ghost rec = m[i as int].1;
                    let slot = &mut self.intents[i];
                    slot.1.status = status;
                    proof {
                        assert(status_step_allowed(rec.status, status));
                        assert(self.intents_v()[i as int].1 =~~= (RecordV { status, ..rec }));
                        assert(self.intents_v() =~~= assoc_put(
                            m,
                            id,
                            (RecordV { status, ..rec }),
                        ));
                        lemma_assoc_put(m, id, (RecordV { status, ..rec }));
                        lemma_wf_after_intents_put(
                            *old(self),
                            *self,
                            id,
                            (RecordV { status, ..rec }),
                        );
                    }
                    true
                } else {
                    false
                }
            }
            None => false,
        }
    }

    /// Store a plan under its id, and point the intent's record at it.
    pub fn store_plan(&mut self, plan: Plan)
        requires
            old(self).wf(),
        ensures
            final(self).wf(),
            final(self).plans_v() == assoc_put(old(self).plans_v(), plan.id, plan@),
            ({
                let m = old(self).intents_v();
                match assoc_get(m, plan.intent_id) {
                    Option::Some(rec) => final(self).intents_v() == assoc_put(
                        m,
                        plan.intent_id,
                        (RecordV { plan_id: Option::Some(plan.id), ..rec }),
                    ),
                    Option::None => final(self).intents_v() == m,
                }
            }),
            final(self).artifacts_v() == old(self).artifacts_v(),
            final(self).state_store@ == old(self).state_store@,
    {
        let intent_id = plan.intent_id;
        let plan_id = plan.id;
        let ghost pv = plan@;
        let ghost pm = self.plans_v();
        proof {
            lemma_assoc_put(pm, plan_id, pv);
        }
        match self.find_plan_slot(plan_id) {
            Some(i) => {
                let slot = &mut self.plans[i];
                slot.1 = plan;
                proof {
                    assert(self.plans_v() =~~= assoc_put(pm, plan_id, pv));
                }
            }
            None => {
                self.plans.push((plan_id, plan));
                proof {
                    assert(self.plans_v() =~~= assoc_put(pm, plan_id, pv));
                }
            }
        }

        let ghost m = self.intents_v();
        match self.find_intent_slot(intent_id) {
            Some(i) => {
                let ghost rec = m[i as int].1;
                let slot = &mut self.intents[i];
                slot.1.plan_id = Some(plan_id);
                proof {
                    assert(self.intents_v()[i as int].1
                        =~~= (RecordV { plan_id: Option::Some(plan_id), ..rec }));
                    assert(self.intents_v() =~~= assoc_put(
                        m,
                        intent_id,
                        (RecordV { plan_id: Option::Some(plan_id), ..rec }),
                    ));
                    lemma_assoc_put(m, intent_id, (RecordV {
                        plan_id: Option::Some(plan_id),
                        ..rec
                    }));
                }
            }
            None => {}
        }
        proof {
            lemma_wf_after_tables(*old(self), *self);
        }
    }

    /// Get a plan by plan id.
    pub fn get_plan(&self, id: Id) -> (r: Option<Plan>)
        requires
            self.wf(),
        ensures
            match assoc_get(self.plans_v(), id) {
                Option::Some(p) => r matches Some(x) && x@ == p,
                Option::None => r is None,
            },
    {
        match self.find_plan_slot(id) {
            Some(i) => Some(self.plans[i].1.duplicate()),
            None => None,
        }
    }

    /// Get the plan generated for an intent, if any.
    pub fn get_plan_for_intent(&self, intent_id: Id) -> (r: Option<Plan>)
        requires
            self.wf(),
        ensures
            match assoc_get(self.intents_v(), intent_id) {
                Option::Some(rec) => match rec.plan_id {
                    Option::Some(pid) => match assoc_get(self.plans_v(), pid) {
                        Option::Some(p) => r matches Some(x) && x@ == p,
                        Option::None => r is None,
                    },
                    Option::None => r is None,
                },
                Option::None => r is None,
            },
    {
        match self.find_intent_slot(intent_id) {
            Some(i) => {
                match self.intents[i].1.plan_id {
                    Some(pid) => self.get_plan(pid),
                    None => None,
                }
            }
            None => None,
        }
    }

    /// Store an artifact under its id, point the intent's record at it, and
    /// move the record to Complete (where the status graph allows it).
    pub fn store_artifact(&mut self, artifact: ExecutionArtifact)
        requires
            old(self).wf(),
        ensures
            final(self).wf(),
            final(self).artifacts_v() == assoc_put(
                old(self).artifacts_v(),
                artifact.id,
                artifact@,
            ),
            ({
                let m = old(self).intents_v();
                match assoc_get(m, artifact.intent.id) {
                    Option::Some(rec) => final(self).intents_v() == assoc_put(
                        m,
                        artifact.intent.id,
                        (RecordV {
                            artifact_id: Option::Some(artifact.id),
                            status: if !rec.status.spec_is_terminal()
                                && status_step_allowed(rec.status, IntentStatus::Complete) {
                                IntentStatus::Complete
                            } else {
                                rec.status
                            },
                            ..rec
                        }),
                    ),
                    Option::None => final(self).intents_v() == m,
                }
            }),
            final(self).plans_v() == old(self).plans_v(),
            final(self).state_store@ == old(self).state_store@,
    {
        let intent_id = artifact.intent.id;
        let artifact_id = artifact.id;
        let ghost av = artifact@;
        let ghost am = self.artifacts_v();
        proof {
            lemma_assoc_put(am, artifact_id, av);
        }
        match self.find_artifact_slot(artifact_id) {
            Some(i) => {
                let slot = &mut self.artifacts[i];
                slot.1 = artifact;
                proof {
                    assert(self.artifacts_v() =~~= assoc_put(am, artifact_id, av));
                }
            }
            None => {
                self.artifacts.push((artifact_id, artifact));
                proof {
                    assert(self.artifacts_v() =~~= assoc_put(am, artifact_id, av));
                }
            }
        }

        let ghost m = self.intents_v();
        match self.find_intent_slot(intent_id) {
            Some(i) => {
                let ghost rec = m[i as int].1;
                let current = self.intents[i].1.status;
                let to_complete = !current.is_terminal() && match current {
                    IntentStatus::Executing => true,
                    IntentStatus::Compensating => true,
                    _ => false,
                };
                let slot = &mut self.intents[i];
                slot.1.artifact_id = Some(artifact_id);
                if to_complete {
                    slot.1.status = IntentStatus::Complete;
                }
                proof {
                    let updated = RecordV {
                        artifact_id: Option::Some(artifact_id),
                        status: if !rec.status.spec_is_terminal()
                            && status_step_allowed(rec.status, IntentStatus::Complete) {
                            IntentStatus::Complete
                        } else {
                            rec.status
                        },
                        ..rec
                    };
                    assert(self.intents_v()[i as int].1 =~~= updated);
                    assert(self.intents_v() =~~= assoc_put(m, intent_id, updated));
                    lemma_assoc_put(m, intent_id, updated);
                }
            }
            None => {}
        }
        proof {
            lemma_wf_after_tables(*old(self), *self);
        }
    }

    /// Get an artifact by artifact id.
    pub fn get_artifact(&self, id: Id) -> (r: Option<ExecutionArtifact>)
        requires
            self.wf(),
        ensures
            match assoc_get(self.artifacts_v(), id) {
                Option::Some(a) => r matches Some(x) && x@ == a,
                Option::None => r is None,
            },
    {
        match self.find_artifact_slot(id) {
            Some(i) => Some(duplicate_artifact(&self.artifacts[i].1)),
            None => None,
        }
    }

    /// Get the artifact produced for an intent, if any.
    pub fn get_artifact_for_intent(&self, intent_id: Id) -> (r: Option<ExecutionArtifact>)
        requires
            self.wf(),
        ensures
            match assoc_get(self.intents_v(), intent_id) {
                Option::Some(rec) => match rec.artifact_id {
                    Option::Some(aid) => match assoc_get(self.artifacts_v(), aid) {
                        Option::Some(a) => r matches Some(x) && x@ == a,
                        Option::None => r is None,
                    },
                    Option::None => r is None,
                },
                Option::None => r is None,
            },
    {
        match self.find_intent_slot(intent_id) {
            Some(i) => {
                match self.intents[i].1.artifact_id {
                    Some(aid) => self.get_artifact(aid),
                    None => None,
                }
            }
            None => None,
        }
    }

    /// List all intent records, in table order.
    pub fn list_intents(&self) -> (r: Vec<IntentRecord>)
        requires
            self.wf(),
        ensures
            r.deep_view() == Seq::new(self.intents_v().len(), |i: int| self.intents_v()[i].1),
    {
        let mut out: Vec<IntentRecord> = Vec::new();
        let mut i: usize = 0;
        while i < self.intents.len()
            invariant
                i <= self.intents@.len(),
                out@.len() == i,
                forall|j: int| 0 <= j < i
                    ==> #[trigger] out@[j]@ == self.intents_v()[j].1,
            decreases self.intents@.len() - i,
        {
            out.push(self.intents[i].1.duplicate());
            i = i + 1;
        }
        proof {
            assert(out.deep_view() =~~= Seq::new(
                self.intents_v().len(),
                |i: int| self.intents_v()[i].1,
            ));
        }
        out
    }
}

impl AppState {
    /// Record a failure on an intent: the error message is stored and the
    /// record moves to Failed (where the status graph allows it); a missing
    /// record changes nothing.
    pub fn fail_intent(&mut self, id: Id, message: String)
        requires
            old(self).wf(),
        ensures
            final(self).wf(),
            ({
                let m = old(self).intents_v();
                match assoc_get(m, id) {
                    Option::Some(rec) => final(self).intents_v() == assoc_put(
                        m,
                        id,
                        (RecordV {
                            error: Option::Some(message@),
                            status: if !rec.status.spec_is_terminal()
                                && status_step_allowed(rec.status, IntentStatus::Failed) {
                                IntentStatus::Failed
                            } else {
                                rec.status
                            },
                            ..rec
                        }),
                    ),
                    Option::None => final(self).intents_v() == m,
                }
            }),
            final(self).plans_v() == old(self).plans_v(),
            final(self).artifacts_v() == old(self).artifacts_v(),
            final(self).state_store@ == old(self).state_store@,
    {
        let ghost m = self.intents_v();
        match self.find_intent_slot(id) {
            Some(i) => {
                let ghost rec = m[i as int].1;
                let current = self.intents[i].1.status;
                let to_failed = !current.is_terminal() && match current {
                    IntentStatus::Planning => true,
                    IntentStatus::Negotiating => true,
                    IntentStatus::Executing => true,
                    IntentStatus::Compensating => true,
                    _ => false,
                };
                let slot = &mut self.intents[i];
                slot.1.error = Some(message);
                if to_failed {
                    slot.1.status = IntentStatus::Failed;
                }
                proof {
                    let updated = RecordV {
                        error: Option::Some(message@),
                        status: if !rec.status.spec_is_terminal()
                            && status_step_allowed(rec.status, IntentStatus::Failed) {
                            IntentStatus::Failed
                        } else {
                            rec.status
                        },
                        ..rec
                    };
                    assert(self.intents_v()[i as int].1 =~~= updated);
                    assert(self.intents_v() =~~= assoc_put(m, id, updated));
                    lemma_assoc_put(m, id, updated);
                    lemma_wf_after_intents_put(*old(self), *self, id, updated);
                }
            }
            None => {}
        }
    }

    /// The id of the first record whose status is Received, if any.
    pub fn first_pending(&self) -> (r: Option<Id>)
        requires
            self.wf(),
        ensures
            r == first_received(self.intents_v()),
    {
        let ghost m = self.intents_v();
        proof {
            assert(m.subrange(0, m.len() as int) =~= m);
        }
        let mut i: usize = 0;
        while i < self.intents.len()
            invariant
                i <= self.intents@.len(),
                m == self.intents_v(),
                m.len() == self.intents@.len(),
                forall|j: int| 0 <= j < i
                    ==> (#[trigger] m[j]).1.status != IntentStatus::Received,
                first_received(m) == first_received(m.subrange(i as int, m.len() as int)),
            decreases self.intents@.len() - i,
        {
            let ghost suffix = m.subrange(i as int, m.len() as int);
            proof {
                assert(suffix[0] == m[i as int]);
                assert(suffix.drop_first() =~= m.subrange(i + 1, m.len() as int));
            }
            let is_received = match self.intents[i].1.status {
                IntentStatus::Received => true,
                _ => false,
            };
            if is_received {
                return Some(self.intents[i].0);
            }
            i = i + 1;
        }
        proof {
            assert(m.subrange(m.len() as int, m.len() as int).len() == 0);
        }
        None
    }
}

/// The first Received id names a record, and that record is in Received
/// state (given the table's ids are distinct).
pub proof fn lemma_first_received_is_received(m: Seq<(Id, RecordV)>, id: Id)
    requires
        assoc_unique(m),
        first_received(m) == Option::Some(id),
    ensures
        assoc_get(m, id) matches Option::Some(rec) && rec.status == IntentStatus::Received,
    decreases m.len(),
{
    if m.len() > 0 {
        if m[0].1.status == IntentStatus::Received {
            assert(m[0].0 == id);
            assert(assoc_has(m, id));
            let s = assoc_slot(m, id);
            assert(m[s].0 == id);
            if s != 0 {
                assert(false);
            }
        } else {
            let tail = m.drop_first();
            assert(forall|j: int| 0 <= j < tail.len() ==> #[trigger] tail[j] == m[j + 1]);
            assert forall|a: int, b: int| 0 <= a < b < tail.len()
                implies (#[trigger] tail[a]).0 != (#[trigger] tail[b]).0 by {
                assert(tail[a] == m[a + 1] && tail[b] == m[b + 1]);
            }
            lemma_first_received_is_received(tail, id);
            let st = assoc_slot(tail, id);
            assert(tail[st].0 == id);
            assert(m[st + 1].0 == id);
            assert(assoc_has(m, id));
            let s = assoc_slot(m, id);
            assert(m[s].0 == id);
            if s != st + 1 {
                assert(false);
            }
            assert(assoc_get(m, id) == Option::Some(tail[st].1));
        }
    }
}

/// The expected simulated trace of a plan: for each step, in order, one
/// started event and one completed event carrying the simulated duration
/// (the step's estimate, but at least fifty milliseconds).
/// Sum of the simulated step durations: each step takes its estimate, but at
/// least fifty milliseconds.
pub open spec fn sum_sim_durations(steps: Seq<StepV>) -> int
    decreases steps.len(),
{
    if steps.len() == 0 {
        0
    } else {
        sum_sim_durations(steps.drop_last()) + if steps.last().estimated_duration_ms >= 50 {
            steps.last().estimated_duration_ms as int
        } else {
            50int
        }
    }
}

/// Simulated durations are non-negative, so their sums are non-negative.
pub proof fn lemma_sum_sim_durations_nonneg(steps: Seq<StepV>)
    ensures
        sum_sim_durations(steps) >= 0,
    decreases steps.len(),
{
    if steps.len() > 0 {
        lemma_sum_sim_durations_nonneg(steps.drop_last());
    }
}

pub open spec fn sim_step_ok(
    steps: Seq<crate::plan::StepV>,
    trace: Seq<crate::artifact::EventV>,
    k: int,
) -> bool {
    &&& trace[2 * k].event_type is StepStarted
    &&& trace[2 * k].step_id == steps[k].id
    &&& trace[2 * k + 1].event_type is StepCompleted
    &&& trace[2 * k + 1].step_id == steps[k].id
    &&& trace[2 * k + 1].duration_ms == Option::Some(
        if steps[k].estimated_duration_ms >= 50 { steps[k].estimated_duration_ms } else { 50u64 },
    )
}

pub open spec fn simulated_trace(steps: Seq<crate::plan::StepV>, trace: Seq<crate::artifact::EventV>) -> bool {
    &&& trace.len() == 2 * steps.len()
    &&& forall|k: int| 0 <= k < steps.len() ==> #[trigger] sim_step_ok(steps, trace, k)
}

/// The core execution engine.
#[derive(Debug)]
pub struct Engine {
    /// The shared application state the engine drives.
    pub state: AppState,
}

impl Engine {
    /// A new engine over the given state.
    pub fn new(state: AppState) -> (r: Self)
        ensures
            r.state == state,
    {
        Engine { state }
    }

    /// One scan iteration: pick the first intent in Received state, if any,
    /// and drive it through planning and execution.
    pub fn process_pending_intents(&mut self)
        requires
            old(self).state.wf(),
        ensures
            final(self).state.wf(),
            first_received(old(self).state.intents_v()) is None
                ==> final(self).state.intents_v() == old(self).state.intents_v(),
            first_received(old(self).state.intents_v()) matches Some(id)
                ==> (assoc_get(final(self).state.intents_v(), id) matches Some(rec)
                    && (rec.status == IntentStatus::Complete
                        || rec.status == IntentStatus::Failed)),
    {
        let pending = self.state.first_pending();
        match pending {
            Some(id) => {
                proof {
                    lemma_first_received_is_received(self.state.intents_v(), id);
                }
                self.start_planning(id);
            }
            None => {}
        }
    }

    /// Drive one intent: move it to Planning, ask the planner for a plan
    /// against a fresh planning state, and on success store the plan, move to
    /// Executing and execute; on planning failure record the error and move
    /// to Failed. An intent that is missing or not in Received state is left
    /// alone.
    pub fn start_planning(&mut self, intent_id: Id)
        requires
            old(self).state.wf(),
        ensures
            final(self).state.wf(),
            ({
                let m = old(self).state.intents_v();
                match assoc_get(m, intent_id) {
                    Option::Some(rec) => if rec.status == IntentStatus::Received {
                        assoc_get(final(self).state.intents_v(), intent_id)
                            matches Some(r2)
                            && (r2.status == IntentStatus::Complete
                                || r2.status == IntentStatus::Failed)
                            && (r2.status == IntentStatus::Failed ==> r2.error is Some)
                            && (r2.status == IntentStatus::Complete
                                ==> r2.artifact_id is Some
                                    && (r2.plan_id matches Some(pid)
                                        && assoc_get(final(self).state.plans_v(), pid)
                                            matches Some(pv)
                                        && pv.id == pid
                                        && pv.intent_id == intent_id
                                        && crate::plan::plan_wf(pv)))
                    } else {
                        final(self).state.intents_v() == m
                    },
                    Option::None => final(self).state.intents_v() == m,
                }
            }),
    {
        let ghost m0 = self.state.intents_v();
        let moved = self.state.update_intent_status(intent_id, IntentStatus::Planning);
        if !moved {
            return;
        }
        let ghost rec0 = assoc_get(m0, intent_id)->Some_0;
        let ghost rec1 = RecordV { status: IntentStatus::Planning, ..rec0 };
        let ghost m1 = self.state.intents_v();
        proof {
            assert(rec0.status == IntentStatus::Received);
            assert(m1 == assoc_put(m0, intent_id, rec1));
            lemma_assoc_put(m0, intent_id, rec1);
            assert(assoc_get(m1, intent_id) == Option::Some(rec1));
        }

        let record = match self.state.get_intent(intent_id) {
            Some(r) => r,
            None => {
                proof {
                    assert(false);
                }
                return;
            }
        };

        let initial_state = PlanningState::new();
        let plan_result = self.state.planner.plan(&record.intent, &initial_state);

        match plan_result {
            Ok(plan) => {
                let ghost rec2 = RecordV { plan_id: Option::Some(plan.id), ..rec1 };
                let ghost plan_v = plan@;
                let ghost pid = plan.id;
                let ghost pm1 = self.state.plans_v();
                let plan_copy = plan.duplicate();
                self.state.store_plan(plan);
                let ghost m2 = self.state.intents_v();
                proof {
                    assert(rec1.intent.id == intent_id);
                    assert(plan_v.intent_id == intent_id);
                    assert(self.state.plans_v() == assoc_put(pm1, pid, plan_v));
                    lemma_assoc_put(pm1, pid, plan_v);
                    assert(assoc_get(self.state.plans_v(), pid) == Option::Some(plan_v));
                    assert(m2 == assoc_put(m1, intent_id, rec2));
                    lemma_assoc_put(m1, intent_id, rec2);
                    assert(assoc_get(m2, intent_id) == Option::Some(rec2));
                }
                self.state.update_intent_status(intent_id, IntentStatus::Executing);
                let ghost rec3 = RecordV { status: IntentStatus::Executing, ..rec2 };
                let ghost m3 = self.state.intents_v();
                proof {
                    assert(status_step_allowed(rec2.status, IntentStatus::Executing));
                    assert(m3 == assoc_put(m2, intent_id, rec3));
                    lemma_assoc_put(m2, intent_id, rec3);
                    assert(assoc_get(m3, intent_id) == Option::Some(rec3));
                }
                let aid = self.execute_plan(intent_id, plan_copy);
                proof {
                    assert(status_step_allowed(rec3.status, IntentStatus::Complete));
                    let artifact_id = aid->Some_0;
                    let rec4 = RecordV {
                        artifact_id: Option::Some(artifact_id),
                        status: IntentStatus::Complete,
                        ..rec3
                    };
                    assert(self.state.intents_v() == assoc_put(m3, intent_id, rec4));
                    lemma_assoc_put(m3, intent_id, rec4);
                    assert(assoc_get(self.state.intents_v(), intent_id)
                        == Option::Some(rec4));
                }
            }
            Err(e) => {
                let message = e.message();
                let ghost msg_v = message@;
                self.state.fail_intent(intent_id, message);
                let ghost rec2 = RecordV {
                    error: Option::Some(msg_v),
                    status: IntentStatus::Failed,
                    ..rec1
                };
                proof {
                    assert(status_step_allowed(rec1.status, IntentStatus::Failed));
                    assert(self.state.intents_v() == assoc_put(m1, intent_id, rec2));
                    lemma_assoc_put(m1, intent_id, rec2);
                    assert(assoc_get(self.state.intents_v(), intent_id)
                        == Option::Some(rec2));
                }
            }
        }
    }

    /// Execute a plan for an intent: simulate each step in order, emitting a
    /// started and a completed event into the artifact's Merkle-committed
    /// trace and accruing the step costs, then store the artifact with a
    /// Success outcome and move the record to Complete. A missing record
    /// changes nothing.
    #[verifier::rlimit(100)]
    pub fn execute_plan(&mut self, intent_id: Id, plan: Plan) -> (aid: Option<Id>)
        requires
            old(self).state.wf(),
        ensures
            final(self).state.wf(),
            aid is Some <==> assoc_has(old(self).state.intents_v(), intent_id),
            ({
                let m = old(self).state.intents_v();
                match assoc_get(m, intent_id) {
                    Option::Some(rec) => aid matches Some(artifact_id)
                        && (assoc_get(final(self).state.artifacts_v(), artifact_id)
                            matches Some(a)
                        && final(self).state.artifacts_v() == assoc_put(
                            old(self).state.artifacts_v(),
                            artifact_id,
                            a,
                        )
                        && a.id == artifact_id
                        && a.intent == rec.intent
                        && a.final_plan == plan@
                        && a.outcome is Success
                        && a.merkle_root == crate::artifact::merkle_root_hex(a.trace)
                        && simulated_trace(plan@.steps, a.trace)
                        && a.actual_cost as int == if sum_step_costs(plan@.steps) <= u64::MAX {
                            sum_step_costs(plan@.steps)
                        } else {
                            u64::MAX as int
                        }
                        && a.actual_duration_ms as int
                            == if sum_sim_durations(plan@.steps) <= u64::MAX {
                            sum_sim_durations(plan@.steps)
                        } else {
                            u64::MAX as int
                        }
                        && final(self).state.intents_v() == assoc_put(
                            m,
                            intent_id,
                            (RecordV {
                                artifact_id: Option::Some(artifact_id),
                                status: if !rec.status.spec_is_terminal()
                                    && status_step_allowed(
                                        rec.status,
                                        IntentStatus::Complete,
                                    ) {
                                    IntentStatus::Complete
                                } else {
                                    rec.status
                                },
                                ..rec
                            }),
                        )),
                    Option::None => final(self).state.intents_v() == m
                        && final(self).state.artifacts_v() == old(self).state.artifacts_v(),
                }
            }),
            final(self).state.plans_v() == old(self).state.plans_v(),
    {
        let record = match self.state.get_intent(intent_id) {
            Some(r) => r,
            None => {
                return None;
            }
        };

        let ghost plan_v = plan@;
        let ghost rec_v = assoc_get(old(self).state.intents_v(), intent_id)->Some_0;
        let steps = duplicate_steps_vec(&plan.steps);
        let mut artifact = ExecutionArtifact::new(record.intent, plan, Outcome::Success);

        let mut i: usize = 0;
        while i < steps.len()
            invariant
                i <= steps@.len(),
                steps.deep_view() == plan_v.steps,
                steps.deep_view().len() == steps@.len(),
                artifact.merkle_wf(),
                artifact.intent@ == rec_v.intent,
                artifact.final_plan@ == plan_v,
                artifact.outcome@ is Success,
                event_views(artifact.trace@).len() == 2 * i,
                simulated_trace(
                    steps.deep_view().subrange(0, i as int),
                    event_views(artifact.trace@),
                ),
                artifact.actual_cost as int == if sum_step_costs(
                    steps.deep_view().subrange(0, i as int),
                ) <= u64::MAX {
                    sum_step_costs(steps.deep_view().subrange(0, i as int))
                } else {
                    u64::MAX as int
                },
                artifact.actual_duration_ms as int == if sum_sim_durations(
                    steps.deep_view().subrange(0, i as int),
                ) <= u64::MAX {
                    sum_sim_durations(steps.deep_view().subrange(0, i as int))
                } else {
                    u64::MAX as int
                },
            decreases steps@.len() - i,
        {
            let step_id = steps[i].id;
            let est = steps[i].estimated_duration_ms;
            let cost = steps[i].estimated_cost;
            let ghost pre_trace = event_views(artifact.trace@);

            let started = ExecutionEvent::step_started(step_id);
            let ghost sv = started@;
            artifact.add_event(started);
            let ghost mid_trace = event_views(artifact.trace@);

            let duration_ms: u64 = if est >= 50 { est } else { 50 };
            let completed = ExecutionEvent::step_completed(step_id, duration_ms);
            let ghost cv = completed@;
            artifact.add_event(completed);

            if artifact.actual_cost <= u64::MAX - cost {
                artifact.actual_cost = artifact.actual_cost + cost;
            } else {
                artifact.actual_cost = u64::MAX;
            }

            proof {
                let post_trace = event_views(artifact.trace@);
                let sub = steps.deep_view().subrange(0, i + 1);
                let subi = steps.deep_view().subrange(0, i as int);
                assert(mid_trace == pre_trace.push(sv));
                assert(post_trace == mid_trace.push(cv));
                assert(post_trace.len() == pre_trace.len() + 2);
                assert(post_trace[2 * (i as int)] == sv);
                assert(post_trace[2 * (i as int) + 1] == cv);
                assert(sub[i as int] == steps.deep_view()[i as int]);
                assert(sv.event_type is StepStarted);
                assert(sv.step_id == sub[i as int].id);
                assert(cv.event_type is StepCompleted);
                assert(cv.step_id == sub[i as int].id);
                assert(cv.duration_ms == Option::Some(
                    if sub[i as int].estimated_duration_ms >= 50 {
                        sub[i as int].estimated_duration_ms
                    } else {
                        50u64
                    },
                ));
                assert(forall|k: int| 0 <= k < pre_trace.len()
                    ==> #[trigger] post_trace[k] == pre_trace[k]);
                assert(post_trace.len() == 2 * sub.len());
                assert forall|k: int| 0 <= k < sub.len()
                    implies #[trigger] sim_step_ok(sub, post_trace, k) by {
                    if k < i {
                        assert(subi[k] == sub[k]);
                        assert(post_trace[2 * k] == pre_trace[2 * k]);
                        assert(post_trace[2 * k + 1] == pre_trace[2 * k + 1]);
                        assert(simulated_trace(subi, pre_trace));
                        assert(sim_step_ok(subi, pre_trace, k));
                    }
                }
                assert(simulated_trace(sub, post_trace));

                assert(sub.drop_last() =~= subi);
                assert(sub.last() == steps.deep_view()[i as int]);
                crate::planner::lemma_sum_costs_nonneg(subi);
                lemma_sum_sim_durations_nonneg(subi);
                assert(sum_step_costs(sub) == sum_step_costs(subi)
                    + steps.deep_view()[i as int].estimated_cost);
                let dsim: int = if steps.deep_view()[i as int].estimated_duration_ms >= 50 {
                    steps.deep_view()[i as int].estimated_duration_ms as int
                } else {
                    50int
                };
                assert(sum_sim_durations(sub) == sum_sim_durations(subi) + dsim);
                assert(duration_ms as int == dsim);
            }
            i = i + 1;
        }
        proof {
            assert(steps.deep_view().subrange(0, steps.deep_view().len() as int)
                =~= steps.deep_view());
        }

        let ghost av = artifact@;
        let ghost arts = self.state.artifacts_v();
        let artifact_id = artifact.id;
        self.state.store_artifact(artifact);
        proof {
            assert(av.merkle_root == crate::artifact::merkle_root_hex(av.trace));
            assert(simulated_trace(plan_v.steps, av.trace));
            lemma_assoc_put(arts, artifact_id, av);
            assert(assoc_get(self.state.artifacts_v(), artifact_id) == Option::Some(av));
        }
        Some(artifact_id)
    }
}

/// An exact copy of a step list.
fn duplicate_steps_vec(v: &Vec<crate::plan::Step>) -> (r: Vec<crate::plan::Step>)
    ensures
        r.deep_view() == v.deep_view(),
{
    let mut out: Vec<crate::plan::Step> = Vec::new();
    let mut i: usize = 0;
    while i < v.len()
        invariant
            i <= v@.len(),
            out@.len() == i,
            forall|j: int| 0 <= j < i ==> #[trigger] out@[j]@ == v@[j]@,
        decreases v@.len() - i,
    {
        out.push(v[i].duplicate());
        i = i + 1;
    }
    proof {
        assert(out.deep_view() =~~= v.deep_view());
    }
    out
}

/// Helper invariant step: replacing or adding one intent record keyed by the
/// intent's own id keeps the tables well-formed.
pub proof fn lemma_wf_after_intents_put(pre: AppState, post: AppState, id: Id, rv: RecordV)
    requires
        pre.wf(),
        rv.intent.id == id,
        post.intents_v() == assoc_put(pre.intents_v(), id, rv),
        post.plans_v() == pre.plans_v(),
        post.artifacts_v() == pre.artifacts_v(),
        post.state_store@ == pre.state_store@,
        post.state_store.wf(),
    ensures
        post.wf(),
{
    lemma_assoc_put(pre.intents_v(), id, rv);
    let m = pre.intents_v();
    let m2 = post.intents_v();
    assert forall|i: int| 0 <= i < m2.len()
        implies (#[trigger] m2[i]).1.intent.id == m2[i].0 by {
        if assoc_has(m, id) {
            let s = assoc_slot(m, id);
            if i != s {
                assert(m2[i] == m[i]);
            }
        } else {
            if i < m.len() {
                assert(m2[i] == m[i]);
            }
        }
    }
}

/// Helper invariant step: after table updates where every row still carries
/// its own id, the state is well-formed when its pieces are.
pub proof fn lemma_wf_after_tables(pre: AppState, post: AppState)
    requires
        pre.wf(),
        assoc_unique(post.intents_v()),
        assoc_unique(post.plans_v()),
        assoc_unique(post.artifacts_v()),
        forall|i: int| 0 <= i < post.intents_v().len()
            ==> (#[trigger] post.intents_v()[i]).1.intent.id == post.intents_v()[i].0,
        forall|i: int| 0 <= i < post.plans_v().len()
            ==> (#[trigger] post.plans_v()[i]).1.id == post.plans_v()[i].0,
        forall|i: int| 0 <= i < post.artifacts_v().len()
            ==> (#[trigger] post.artifacts_v()[i]).1.id == post.artifacts_v()[i].0,
        post.state_store.wf(),
    ensures
        post.wf(),
{
}

/// An exact copy of an artifact.
fn duplicate_artifact(a: &ExecutionArtifact) -> (r: ExecutionArtifact)
    ensures
        r@ == a@,
{
    let mut trace: Vec<ExecutionEvent> = Vec::new();
    let mut i: usize = 0;
    while i < a.trace.len()
        invariant
            i <= a.trace@.len(),
            trace@.len() == i,
            forall|j: int| 0 <= j < i ==> #[trigger] trace@[j]@ == a.trace@[j]@,
        decreases a.trace@.len() - i,
    {
        trace.push(a.trace[i].duplicate());
        i = i + 1;
    }
    let r = ExecutionArtifact {
        id: a.id,
        intent: a.intent.duplicate(),
        final_plan: a.final_plan.duplicate(),
        trace,
        outcome: a.outcome.duplicate(),
        timestamp: a.timestamp,
        merkle_root: a.merkle_root.clone(),
        actual_cost: a.actual_cost,
        actual_duration_ms: a.actual_duration_ms,
        execution_metadata: crate::artifact::ExecutionMetadata {
            node_id: a.execution_metadata.node_id.clone(),
            node_version: a.execution_metadata.node_version.clone(),
            region: match &a.execution_metadata.region {
                Some(x) => Some(x.clone()),
                None => None,
            },
            extra: a.execution_metadata.extra.clone(),
        },
    };
    proof {
        assert(r@.trace =~~= a@.trace);
        assert(r@ =~~= a@);
    }
    r
}

} // verus!
