//! Applying a [`ReconcileResult`] to the cluster.
//!
//! The effects of a result are applied in a fixed order:
//! 1. log events,
//! 2. apply status updates (so that `observedGeneration` is updated even on
//!    failure),
//! 3. apply upserts,
//! 4. apply deletes (errors are logged but do not abort).
//!
//! [`Execution`] holds the decisions of that process: which effect comes
//! next, and whether a failed effect stops the execution. The shell that
//! talks to the cluster performs each effect it is handed and reports back
//! whether it succeeded. When the execution finishes, [`requeue_to_action`]
//! turns the result's requeue decision into a kube [`Action`].
use crate::result::{Duration, ReconcileResult, RequeueDecision};
use kube::runtime::controller::Action;
use vstd::prelude::*;

verus! {

#[verifier::external_type_specification]
#[verifier::external_body]
pub struct ExAction(Action);

/// Seconds to requeue after when the result asks never to requeue (a safety net).
pub const NEVER_REQUEUE_SECS: u64 = 3600;

/// Seconds to requeue after when the result makes no requeue decision
/// (the default periodic reconciliation).
pub const DEFAULT_REQUEUE_SECS: u64 = 300;

/// The delay after which a reconciliation with the given requeue decision
/// runs again.
pub open spec fn requeue_delay_of(requeue: Option<RequeueDecision>) -> Duration {
    match requeue {
        Some(RequeueDecision::After(d)) => d,
        Some(RequeueDecision::OnError(d)) => d,
        Some(RequeueDecision::Never) => Duration::of_secs(NEVER_REQUEUE_SECS),
        None => Duration::of_secs(DEFAULT_REQUEUE_SECS),
    }
}

/// The delay after which a reconciliation with the given requeue decision
/// runs again.
///
/// - `After(d)` and `OnError(d)` both requeue after `d`.
/// - `Never` requeues after 1 hour (as a safety net).
/// - `None` requeues after 5 minutes (default periodic reconciliation).
pub fn requeue_delay(requeue: Option<RequeueDecision>) -> (d: Duration)
    ensures
        d == requeue_delay_of(requeue),
        requeue matches Some(RequeueDecision::After(x)) ==> d == x,
        requeue matches Some(RequeueDecision::OnError(x)) ==> d == x,
        requeue matches Some(RequeueDecision::Never) ==> d.whole_secs() == 3600 && d.subsec()
            == 0,
        requeue is None ==> d.whole_secs() == 300 && d.subsec() == 0,
{
    match requeue {
        Some(RequeueDecision::After(d)) => d,
        Some(RequeueDecision::OnError(d)) => d,
        Some(RequeueDecision::Never) => Duration::from_secs(NEVER_REQUEUE_SECS),
        None => Duration::from_secs(DEFAULT_REQUEUE_SECS),
    }
}

/// What kube's `Action::requeue` returns for the duration of `secs` seconds
/// and `nanos` nanoseconds.
pub uninterp spec fn requeued_action(secs: u64, nanos: u32) -> Action;

/// Calls kube's `Action::requeue` with the `std::time::Duration` of `secs`
/// seconds and `nanos` nanoseconds. The contract only names the action that
/// comes back: its content (a requeue after that duration, per kube's
/// source) is private to kube and not stated.
#[verifier::external_body]
fn kube_requeue(secs: u64, nanos: u32) -> (a: Action)
    requires
        nanos < 1_000_000_000,
    ensures
        a == requeued_action(secs, nanos),
{
    Action::requeue(std::time::Duration::new(secs, nanos))
}

/// Convert a [`RequeueDecision`] to a kube [`Action`]: a requeue after
/// [`requeue_delay`].
pub fn requeue_to_action(requeue: Option<RequeueDecision>) -> (a: Action)
    ensures
        a == requeued_action(
            requeue_delay_of(requeue).whole_secs(),
            requeue_delay_of(requeue).subsec(),
        ),
{
    let d = requeue_delay(requeue);
    kube_requeue(d.as_secs(), d.subsec_nanos())
}

/// One effect of a [`ReconcileResult`], by its index in the field that holds it.
#[derive(Clone, Copy, Debug, PartialEq, Eq, Structural)]
pub enum Effect {
    /// Log `events[i]`.
    LogEvent(usize),
    /// Apply `status_updates[i]`.
    ApplyStatusUpdate(usize),
    /// Apply `upserts[i]`.
    ApplyUpsert(usize),
    /// Apply `deletes[i]`.
    ApplyDelete(usize),
}

/// What to do next.
#[derive(Clone, Copy, Debug, PartialEq, Eq, Structural)]
pub enum Step {
    /// Perform this effect, then report whether it succeeded.
    Perform(Effect),
    /// All effects are done: requeue as [`requeue_to_action`] says.
    Finish,
}

/// What follows the outcome of an effect.
#[derive(Clone, Copy, Debug, PartialEq, Eq, Structural)]
pub enum Outcome {
    /// Go on with the next step.
    Continue,
    /// Stop, and report the error of the failed effect.
    Abort,
}

/// The stage of an execution.
#[derive(Clone, Copy, Debug, PartialEq, Eq, Structural)]
enum Stage {
    Events,
    StatusUpdates,
    Upserts,
    Deletes,
    Finished,
}

/// The order in which the effects of a result with `events` events,
/// `status_updates` status updates, `upserts` upserts and `deletes` deletes
/// are performed.
pub open spec fn schedule(events: nat, status_updates: nat, upserts: nat, deletes: nat) -> Seq<
    Effect,
> {
    Seq::new(events, |i: int| Effect::LogEvent(i as usize)) + Seq::new(
        status_updates,
        |i: int| Effect::ApplyStatusUpdate(i as usize),
    ) + Seq::new(upserts, |i: int| Effect::ApplyUpsert(i as usize)) + Seq::new(
        deletes,
        |i: int| Effect::ApplyDelete(i as usize),
    )
}

/// A failure of this effect stops the execution (a failed delete does not).
pub open spec fn stops_on_failure(e: Effect) -> bool {
    e is ApplyStatusUpdate || e is ApplyUpsert
}

/// The execution of the effects of one [`ReconcileResult`], as a state
/// machine: [`Execution::next_step`] says which effect to perform, and
/// [`Execution::record`] takes its outcome.
#[derive(Clone, Copy, Debug)]
pub struct Execution {
    events: usize,
    status_updates: usize,
    upserts: usize,
    deletes: usize,
    stage: Stage,
    index: usize,
}

impl Execution {
    /// The number of effects of a stage.
    spec fn stage_len(self, stage: Stage) -> nat {
        match stage {
            Stage::Events => self.events as nat,
            Stage::StatusUpdates => self.status_updates as nat,
            Stage::Upserts => self.upserts as nat,
            Stage::Deletes => self.deletes as nat,
            Stage::Finished => 0,
        }
    }

    /// The execution is at an effect of its stage, or finished.
    #[verifier::type_invariant]
    pub closed spec fn well_formed(self) -> bool {
        if self.stage is Finished {
            self.index == 0
        } else {
            self.index < self.stage_len(self.stage)
        }
    }

    /// All effects of the result, in the order they are performed.
    pub closed spec fn plan(self) -> Seq<Effect> {
        schedule(self.events as nat, self.status_updates as nat, self.upserts as nat, self.deletes as nat)
    }

    /// The number of effects performed so far.
    pub closed spec fn position(self) -> int {
        let before = match self.stage {
            Stage::Events => 0,
            Stage::StatusUpdates => self.events as int,
            Stage::Upserts => self.events + self.status_updates,
            Stage::Deletes => self.events + self.status_updates + self.upserts,
            Stage::Finished => self.events + self.status_updates + self.upserts + self.deletes,
        };
        before + self.index
    }

    /// The effect to perform next, if any.
    pub open spec fn pending(self) -> Option<Effect> {
        if 0 <= self.position() < self.plan().len() {
            Some(self.plan()[self.position()])
        } else {
            None
        }
    }

    /// The first stage, from `stage` on, that has an effect to perform.
    spec fn first_nonempty(self, stage: Stage) -> Stage {
        let from_deletes = if self.deletes > 0 {
            Stage::Deletes
        } else {
            Stage::Finished
        };
        let from_upserts = if self.upserts > 0 {
            Stage::Upserts
        } else {
            from_deletes
        };
        let from_status_updates = if self.status_updates > 0 {
            Stage::StatusUpdates
        } else {
            from_upserts
        };
        let from_events = if self.events > 0 {
            Stage::Events
        } else {
            from_status_updates
        };
        match stage {
            Stage::Events => from_events,
            Stage::StatusUpdates => from_status_updates,
            Stage::Upserts => from_upserts,
            Stage::Deletes => from_deletes,
            Stage::Finished => Stage::Finished,
        }
    }

    /// The effect at `index` in `stage`.
    spec fn effect_at(stage: Stage, index: usize) -> Option<Effect> {
        match stage {
            Stage::Events => Some(Effect::LogEvent(index)),
            Stage::StatusUpdates => Some(Effect::ApplyStatusUpdate(index)),
            Stage::Upserts => Some(Effect::ApplyUpsert(index)),
            Stage::Deletes => Some(Effect::ApplyDelete(index)),
            Stage::Finished => None,
        }
    }

    /// What follows the outcome of the pending effect.
    pub open spec fn outcome_of(self, succeeded: bool) -> Outcome {
        if !succeeded && stops_on_failure(self.pending().unwrap()) {
            Outcome::Abort
        } else {
            Outcome::Continue
        }
    }

    /// The pending effect is the one at the current index of the current stage.
    proof fn lemma_pending(self)
        requires
            self.well_formed(),
        ensures
            self.pending() == Execution::effect_at(self.stage, self.index),
            self.plan().len() == self.events + self.status_updates + self.upserts + self.deletes,
    {
        let e = Seq::new(self.events as nat, |i: int| Effect::LogEvent(i as usize));
        let su = Seq::new(self.status_updates as nat, |i: int| Effect::ApplyStatusUpdate(i as usize));
        let u = Seq::new(self.upserts as nat, |i: int| Effect::ApplyUpsert(i as usize));
        let d = Seq::new(self.deletes as nat, |i: int| Effect::ApplyDelete(i as usize));
        assert(self.plan() == e + su + u + d);
        let p = self.position();
        match self.stage {
            Stage::Events => {
                assert((e + su + u + d)[p] == e[p]);
            },
            Stage::StatusUpdates => {
                assert((e + su + u + d)[p] == su[p - e.len()]);
            },
            Stage::Upserts => {
                assert((e + su + u + d)[p] == u[p - e.len() - su.len()]);
            },
            Stage::Deletes => {
                assert((e + su + u + d)[p] == d[p - e.len() - su.len() - u.len()]);
            },
            Stage::Finished => {},
        }
    }

    /// Entering the first nonempty stage from `stage` on keeps the position
    /// at the start of `stage`.
    proof fn lemma_enter(self, stage: Stage)
        requires
            !(stage is Events),
        ensures
            ({
                let entered = Execution { stage: self.first_nonempty(stage), index: 0, ..self };
                &&& entered.well_formed()
                &&& entered.position() == (Execution { stage, index: 0, ..self }).position()
            }),
    {
    }

    /// Starts the execution of the effects of `result`.
    pub fn new<U, S>(result: &ReconcileResult<U, S>) -> (e: Execution)
        ensures
            e.plan() == schedule(
                result@.events.len(),
                result@.status_updates.len(),
                result@.upserts.len(),
                result@.deletes.len(),
            ),
            e.position() == 0,
    {
        let events = result.events.len();
        let status_updates = result.status_updates.len();
        let upserts = result.upserts.len();
        let deletes = result.deletes.len();
        let stage = if events > 0 {
            Stage::Events
        } else if status_updates > 0 {
            Stage::StatusUpdates
        } else if upserts > 0 {
            Stage::Upserts
        } else if deletes > 0 {
            Stage::Deletes
        } else {
            Stage::Finished
        };
        Execution { events, status_updates, upserts, deletes, stage, index: 0 }
    }

    /// The next step: the pending effect, or finishing when none is left.
    pub fn next_step(&self) -> (s: Step)
        ensures
            s == match self.pending() {
                Some(e) => Step::Perform(e),
                None => Step::Finish,
            },
    {
        proof {
            use_type_invariant(self);
            self.lemma_pending();
        }
        match self.stage {
            Stage::Events => Step::Perform(Effect::LogEvent(self.index)),
            Stage::StatusUpdates => Step::Perform(Effect::ApplyStatusUpdate(self.index)),
            Stage::Upserts => Step::Perform(Effect::ApplyUpsert(self.index)),
            Stage::Deletes => Step::Perform(Effect::ApplyDelete(self.index)),
            Stage::Finished => Step::Finish,
        }
    }

    /// Takes the outcome of the pending effect. A failed status update or
    /// upsert stops the execution; any other outcome moves on to the next
    /// effect.
    pub fn record(&mut self, succeeded: bool) -> (o: Outcome)
        requires
            old(self).pending() is Some,
        ensures
            o == old(self).outcome_of(succeeded),
            succeeded ==> o is Continue,
            !succeeded && (old(self).pending() matches Some(Effect::ApplyUpsert(_))) ==> o is Abort,
            !succeeded && (old(self).pending() matches Some(Effect::ApplyStatusUpdate(_))) ==> o is Abort,
            (old(self).pending() matches Some(Effect::ApplyDelete(_))) ==> o is Continue,
            (old(self).pending() matches Some(Effect::LogEvent(_))) ==> o is Continue,
            final(self).plan() == old(self).plan(),
            final(self).position() == if o is Abort {
                old(self).position()
            } else {
                old(self).position() + 1
            },
    {
        proof {
            use_type_invariant(&*self);
            self.lemma_pending();
        }
        let stops = match self.stage {
            Stage::StatusUpdates => true,
            Stage::Upserts => true,
            _ => false,
        };
        if !succeeded && stops {
            return Outcome::Abort;
        }
        let len = match self.stage {
            Stage::Events => self.events,
            Stage::StatusUpdates => self.status_updates,
            Stage::Upserts => self.upserts,
            Stage::Deletes => self.deletes,
            Stage::Finished => 0,
        };
        if self.index + 1 < len {
            self.index = self.index + 1;
        } else {
            let next = match self.stage {
                Stage::Events => Stage::StatusUpdates,
                Stage::StatusUpdates => Stage::Upserts,
                Stage::Upserts => Stage::Deletes,
                _ => Stage::Finished,
            };
            proof {
                self.lemma_enter(next);
            }
            let entered = self.enter(next);
            *self = Execution { stage: entered, index: 0, ..*self };
        }
        Outcome::Continue
    }

    /// The first stage, from `stage` on, that has an effect to perform.
    fn enter(&self, stage: Stage) -> (s: Stage)
        ensures
            s == self.first_nonempty(stage),
    {
        let from_deletes = if self.deletes > 0 {
            Stage::Deletes
        } else {
            Stage::Finished
        };
        let from_upserts = if self.upserts > 0 {
            Stage::Upserts
        } else {
            from_deletes
        };
        let from_status_updates = if self.status_updates > 0 {
            Stage::StatusUpdates
        } else {
            from_upserts
        };
        match stage {
            Stage::Events => if self.events > 0 {
                Stage::Events
            } else {
                from_status_updates
            },
            Stage::StatusUpdates => from_status_updates,
            Stage::Upserts => from_upserts,
            Stage::Deletes => from_deletes,
            Stage::Finished => Stage::Finished,
        }
    }
}

/// A decision that carries a duration requeues after exactly that duration;
/// `Never` requeues after one hour and no decision after five minutes.
pub proof fn law_requeue_delay(d: Duration)
    ensures
        requeue_delay_of(Some(RequeueDecision::After(d))) == d,
        requeue_delay_of(Some(RequeueDecision::OnError(d))) == d,
        requeue_delay_of(Some(RequeueDecision::Never)).whole_secs() == 3600,
        requeue_delay_of(Some(RequeueDecision::Never)).subsec() == 0,
        requeue_delay_of(None).whole_secs() == 300,
        requeue_delay_of(None).subsec() == 0,
{
    Duration::lemma_of_secs(NEVER_REQUEUE_SECS);
    Duration::lemma_of_secs(DEFAULT_REQUEUE_SECS);
}

/// The failure of any status update or upsert stops an execution, whatever
/// its index; the failure of a delete or of logging an event never does.
pub proof fn law_stops_on_failure(i: usize)
    ensures
        stops_on_failure(Effect::ApplyStatusUpdate(i)),
        stops_on_failure(Effect::ApplyUpsert(i)),
        !stops_on_failure(Effect::ApplyDelete(i)),
        !stops_on_failure(Effect::LogEvent(i)),
{
}

/// The rank of an effect's kind in the order of execution.
pub open spec fn kind_rank(e: Effect) -> int {
    match e {
        Effect::LogEvent(_) => 0,
        Effect::ApplyStatusUpdate(_) => 1,
        Effect::ApplyUpsert(_) => 2,
        Effect::ApplyDelete(_) => 3,
    }
}

/// The index of an effect in the field that holds it.
pub open spec fn effect_index(e: Effect) -> usize {
    match e {
        Effect::LogEvent(i) => i,
        Effect::ApplyStatusUpdate(i) => i,
        Effect::ApplyUpsert(i) => i,
        Effect::ApplyDelete(i) => i,
    }
}

/// The effects performed by an execution at `position` of `plan` whose
/// performed effects have the outcomes `outcomes`, in turn: each pending
/// effect is performed; a failed status update or upsert stops the
/// execution.
pub open spec fn performed(plan: Seq<Effect>, position: int, outcomes: Seq<bool>) -> Seq<Effect>
    decreases outcomes.len(),
{
    if outcomes.len() == 0 || !(0 <= position < plan.len()) {
        Seq::empty()
    } else if !outcomes[0] && stops_on_failure(plan[position]) {
        seq![plan[position]]
    } else {
        seq![plan[position]] + performed(plan, position + 1, outcomes.drop_first())
    }
}

/// The index of the first effect from `position` on, among the next
/// `outcomes.len()`, whose failure stops the execution; `None` when there is
/// none.
pub open spec fn first_stop(plan: Seq<Effect>, position: int, outcomes: Seq<bool>) -> Option<int>
    decreases outcomes.len(),
{
    if outcomes.len() == 0 || !(0 <= position < plan.len()) {
        None
    } else if !outcomes[0] && stops_on_failure(plan[position]) {
        Some(position)
    } else {
        first_stop(plan, position + 1, outcomes.drop_first())
    }
}

/// Events come first, then status updates, then upserts, then deletes; the
/// effects of each kind come in the order of their fields, each once.
pub proof fn law_schedule_order(events: nat, status_updates: nat, upserts: nat, deletes: nat, p: int, q: int)
    requires
        0 <= p < q < schedule(events, status_updates, upserts, deletes).len(),
        events <= usize::MAX,
        status_updates <= usize::MAX,
        upserts <= usize::MAX,
        deletes <= usize::MAX,
    ensures
        ({
            let plan = schedule(events, status_updates, upserts, deletes);
            ||| kind_rank(plan[p]) < kind_rank(plan[q])
            ||| (kind_rank(plan[p]) == kind_rank(plan[q]) && effect_index(plan[p]) < effect_index(plan[q]))
        }),
{
    let e = Seq::new(events, |i: int| Effect::LogEvent(i as usize));
    let su = Seq::new(status_updates, |i: int| Effect::ApplyStatusUpdate(i as usize));
    let u = Seq::new(upserts, |i: int| Effect::ApplyUpsert(i as usize));
    let d = Seq::new(deletes, |i: int| Effect::ApplyDelete(i as usize));
    let plan = e + su + u + d;
    assert(schedule(events, status_updates, upserts, deletes) == plan);
    let a = events as int;
    let b = a + status_updates;
    let c = b + upserts;
    assert(forall|k: int| 0 <= k < a ==> #[trigger] plan[k] == Effect::LogEvent(k as usize));
    assert(forall|k: int| a <= k < b ==> #[trigger] plan[k] == Effect::ApplyStatusUpdate((k - a) as usize));
    assert(forall|k: int| b <= k < c ==> #[trigger] plan[k] == Effect::ApplyUpsert((k - b) as usize));
    assert(forall|k: int| c <= k < plan.len() ==> #[trigger] plan[k] == Effect::ApplyDelete((k - c) as usize));
}

/// An execution performs a prefix of its plan, from where it stands: all
/// remaining effects when no status update or upsert fails, and up to and
/// including the first failed status update or upsert otherwise. A failed
/// delete does not stop it.
pub proof fn law_execution_runs_plan(plan: Seq<Effect>, position: int, outcomes: Seq<bool>)
    requires
        0 <= position <= plan.len(),
    ensures
        performed(plan, position, outcomes) == match first_stop(plan, position, outcomes) {
            Some(k) => plan.subrange(position, k + 1),
            None => plan.subrange(
                position,
                if position + outcomes.len() < plan.len() {
                    position + outcomes.len()
                } else {
                    plan.len() as int
                },
            ),
        },
    decreases outcomes.len(),
{
    if outcomes.len() == 0 || position == plan.len() {
        assert(plan.subrange(position, position) =~= Seq::<Effect>::empty());
    } else if !outcomes[0] && stops_on_failure(plan[position]) {
        assert(plan.subrange(position, position + 1) =~= seq![plan[position]]);
    } else {
        law_execution_runs_plan(plan, position + 1, outcomes.drop_first());
        lemma_first_stop_in_range(plan, position + 1, outcomes.drop_first());
        let rest = performed(plan, position + 1, outcomes.drop_first());
        let end = match first_stop(plan, position, outcomes) {
            Some(k) => k + 1,
            None => if position + outcomes.len() < plan.len() {
                position + outcomes.len()
            } else {
                plan.len() as int
            },
        };
        assert(seq![plan[position]] + plan.subrange(position + 1, end) =~= plan.subrange(position, end));
    }
}

/// When every status update and upsert succeeds, an execution from the start
/// performs every effect of its plan, in order, whatever happens to the
/// deletes.
pub proof fn law_delete_failures_do_not_abort(plan: Seq<Effect>, outcomes: Seq<bool>)
    requires
        outcomes.len() >= plan.len(),
        forall|i: int| 0 <= i < plan.len() && stops_on_failure(plan[i]) ==> outcomes[i],
    ensures
        performed(plan, 0, outcomes) == plan,
{
    lemma_no_stop(plan, 0, outcomes);
    law_execution_runs_plan(plan, 0, outcomes);
    assert(plan.subrange(0, plan.len() as int) =~= plan);
}

proof fn lemma_first_stop_in_range(plan: Seq<Effect>, position: int, outcomes: Seq<bool>)
    ensures
        first_stop(plan, position, outcomes) matches Some(k) ==> position <= k < plan.len()
            && 0 <= k,
    decreases outcomes.len(),
{
    if outcomes.len() == 0 || !(0 <= position < plan.len()) {
    } else if !outcomes[0] && stops_on_failure(plan[position]) {
    } else {
        lemma_first_stop_in_range(plan, position + 1, outcomes.drop_first());
    }
}

proof fn lemma_no_stop(plan: Seq<Effect>, position: int, outcomes: Seq<bool>)
    requires
        0 <= position <= plan.len(),
        outcomes.len() + position >= plan.len(),
        forall|i: int| 0 <= i < outcomes.len() && position + i < plan.len() && stops_on_failure(plan[position + i]) ==> outcomes[i],
    ensures
        first_stop(plan, position, outcomes) is None,
    decreases outcomes.len(),
{
    if outcomes.len() == 0 || position == plan.len() {
    } else {
        let rest = outcomes.drop_first();
        assert forall|i: int| 0 <= i < rest.len() && position + 1 + i < plan.len() && stops_on_failure(plan[position + 1 + i]) implies rest[i] by {
            assert(rest[i] == outcomes[i + 1]);
        }
        assert(!stops_on_failure(plan[position]) || outcomes[0]);
        lemma_no_stop(plan, position + 1, rest);
    }
}

} // verus!
