//! A whole run at once: the actions a sequencer asks for when its caller
//! answers them with a given list of outcomes.

use vstd::prelude::*;
use vstd::string::*;
use crate::config::RunCmd;
use crate::sequencer::{failure_text, present, Phase, Progress, Sequencer};
use crate::step::{Action, Outcome, Step};
use crate::subsystem::{spec_drain_order, Subsystem};

verus! {

/// What a run asked for, in order, and what it came to.
#[derive(Debug)]
pub struct Report {
    pub actions: Vec<Action>,
    pub result: Result<(), String>,
}

/// The answer to the action at place `i`: the one listed there, and
/// `Completed` where the list has ended.
pub open spec fn outcome_at(outcomes: Seq<Outcome>, i: int) -> Outcome {
    if 0 <= i < outcomes.len() {
        outcomes[i]
    } else {
        Outcome::Completed
    }
}

/// Whether the mode settled in the first `i` steps lets the node join the
/// network; it does while no mode was settled.
pub open spec fn network_at(plan: Seq<Step>, outcomes: Seq<Outcome>, i: int) -> bool
    decreases i,
{
    if i <= 0 {
        true
    } else {
        match outcome_at(outcomes, i - 1) {
            Outcome::Resolved(mode) if plan[i - 1] == Step::ResolveSettings =>
                mode.network_enabled(),
            _ => network_at(plan, outcomes, i - 1),
        }
    }
}

/// The step at place `i` as it is handed out.
pub open spec fn presented(plan: Seq<Step>, outcomes: Seq<Outcome>, i: int) -> Step {
    present(plan[i], network_at(plan, outcomes, i))
}

/// Whether the startup ends at step `i`: the step failed, and its failure
/// is not one that is put up with.
pub open spec fn halts_at(plan: Seq<Step>, outcomes: Seq<Outcome>, i: int) -> bool {
    &&& 0 <= i < plan.len()
    &&& outcome_at(outcomes, i).failed()
    &&& !presented(plan, outcomes, i).best_effort()
}

/// The first place from `from` on at which the startup ends, or the length
/// of the plan if there is none.
pub open spec fn first_halt(plan: Seq<Step>, outcomes: Seq<Outcome>, from: int) -> int
    decreases plan.len() - from,
{
    if from >= plan.len() {
        plan.len() as int
    } else if halts_at(plan, outcomes, from) {
        from
    } else {
        first_halt(plan, outcomes, from + 1)
    }
}

/// The subsystems that the first `n` steps of `plan` start, in that order.
pub open spec fn started_by(plan: Seq<Step>, n: int) -> Seq<Subsystem>
    decreases n,
{
    if n <= 0 {
        Seq::empty()
    } else {
        match plan[n - 1].starts() {
            Some(s) => started_by(plan, n - 1).push(s),
            None => started_by(plan, n - 1),
        }
    }
}

/// The first `n` steps as actions.
pub open spec fn performed(plan: Seq<Step>, outcomes: Seq<Outcome>, n: int) -> Seq<Action> {
    Seq::new(n as nat, |i: int| Action::Perform(presented(plan, outcomes, i)))
}

/// One stop for each subsystem of `order`.
pub open spec fn stops(order: Seq<Subsystem>) -> Seq<Action> {
    Seq::new(order.len(), |i: int| Action::Stop(order[i]))
}

/// The actions of a run up to its first stop. A startup that ends at step
/// `k` has performed the steps up to `k`, and opens the address of the
/// instance found where `k` was the probe; one that went through has
/// performed every step and refused new work.
pub open spec fn head(plan: Seq<Step>, outcomes: Seq<Outcome>) -> Seq<Action> {
    let k = first_halt(plan, outcomes, 0);
    if k < plan.len() {
        if presented(plan, outcomes, k) == Step::ProbeEndpoint {
            performed(plan, outcomes, k + 1).push(Action::Perform(Step::OpenEndpoint))
        } else {
            performed(plan, outcomes, k + 1)
        }
    } else {
        performed(plan, outcomes, k).push(Action::RefuseNewWork)
    }
}

/// The subsystems that a run stops, in the order of the stops. After a
/// startup that ended at step `k`: what the steps before `k` started, last
/// first. After one that went through: everything, in the order of a drain.
pub open spec fn owed(plan: Seq<Step>, outcomes: Seq<Outcome>) -> Seq<Subsystem> {
    let k = first_halt(plan, outcomes, 0);
    if k < plan.len() {
        started_by(plan, k).reverse()
    } else {
        spec_drain_order(started_by(plan, k))
    }
}

/// Every action of the run, in order.
pub open spec fn trace(plan: Seq<Step>, outcomes: Seq<Outcome>) -> Seq<Action> {
    (head(plan, outcomes) + stops(owed(plan, outcomes))).push(Action::Finish)
}

/// Why the run failed, if it did: a step other than the probe failed, and
/// its failure is not one that is put up with.
pub open spec fn verdict(plan: Seq<Step>, outcomes: Seq<Outcome>) -> Option<Seq<char>> {
    let k = first_halt(plan, outcomes, 0);
    if k < plan.len() && presented(plan, outcomes, k) != Step::ProbeEndpoint {
        Some(failure_text(presented(plan, outcomes, k), outcome_at(outcomes, k).reason()))
    } else {
        None
    }
}

/// What links a sequencer that has been asked for `actions`, and was
/// answered from `outcomes`, to the run as a whole.
spec fn tracks(p: Progress, outcomes: Seq<Outcome>, actions: Seq<Action>) -> bool {
    let plan = p.plan;
    let k = first_halt(plan, outcomes, 0);
    let n = actions.len() as int;
    match p.phase {
        Phase::Starting => {
            &&& n == p.cursor
            &&& first_halt(plan, outcomes, n) == k
            &&& p.started == started_by(plan, n)
            &&& p.network == network_at(plan, outcomes, n)
            &&& actions == performed(plan, outcomes, n)
            &&& p.failure is None
        },
        Phase::Redirecting => {
            &&& k < plan.len()
            &&& presented(plan, outcomes, k) == Step::ProbeEndpoint
            &&& actions == performed(plan, outcomes, k + 1)
            &&& p.started == started_by(plan, k)
            &&& p.failure is None
        },
        Phase::Refusing => {
            &&& k == plan.len()
            &&& actions == performed(plan, outcomes, k)
            &&& p.started == started_by(plan, k)
            &&& p.failure is None
        },
        Phase::Unwinding => k < plan.len() && winding(p, outcomes, actions),
        Phase::Draining => k == plan.len() && winding(p, outcomes, actions),
        Phase::Finished => {
            &&& actions == head(plan, outcomes) + stops(owed(plan, outcomes))
            &&& p.failure == verdict(plan, outcomes)
        },
    }
}

/// The part of `tracks` for a run that is stopping its subsystems.
spec fn winding(p: Progress, outcomes: Seq<Outcome>, actions: Seq<Action>) -> bool {
    let all = owed(p.plan, outcomes);
    let first = head(p.plan, outcomes);
    let j = actions.len() - first.len();
    &&& 0 <= j < all.len()
    &&& actions == first + stops(all.take(j))
    &&& p.pending == all.skip(j)
    &&& p.failure == verdict(p.plan, outcomes)
}

proof fn lemma_first_halt_bounds(plan: Seq<Step>, outcomes: Seq<Outcome>, from: int)
    requires
        0 <= from <= plan.len(),
    ensures
        from <= first_halt(plan, outcomes, from) <= plan.len(),
        first_halt(plan, outcomes, from) < plan.len() ==> halts_at(
            plan,
            outcomes,
            first_halt(plan, outcomes, from),
        ),
    decreases plan.len() - from,
{
    if from < plan.len() && !halts_at(plan, outcomes, from) {
        lemma_first_halt_bounds(plan, outcomes, from + 1);
    }
}

proof fn lemma_starting_step(p: Progress, outcomes: Seq<Outcome>, actions: Seq<Action>)
    requires
        p.wf(),
        tracks(p, outcomes, actions),
        p.phase == Phase::Starting,
    ensures
        tracks(
            p.after(outcome_at(outcomes, actions.len() as int)),
            outcomes,
            actions.push(p.current()),
        ),
{
    let plan = p.plan;
    let n = actions.len() as int;
    let k = first_halt(plan, outcomes, 0);
    let outcome = outcome_at(outcomes, n);
    let step = presented(plan, outcomes, n);
    let q = p.after(outcome);
    let next = actions.push(p.current());
    assert(next =~= performed(plan, outcomes, n + 1));
    if halts_at(plan, outcomes, n) {
        assert(k == n);
        if step == Step::ProbeEndpoint {
        } else {
            assert(head(plan, outcomes) == performed(plan, outcomes, n + 1));
            let all = owed(plan, outcomes);
            assert(all == p.started.reverse());
            assert(stops(all.take(0)) =~= Seq::<Action>::empty());
            assert(next =~= head(plan, outcomes) + stops(all.take(0)));
            assert(all.skip(0) =~= all);
            if all.len() == 0 {
                assert(stops(all) =~= Seq::<Action>::empty());
                assert(next =~= head(plan, outcomes) + stops(all));
            }
        }
    } else {
        assert(first_halt(plan, outcomes, n + 1) == k);
        assert(step.starts() == plan[n].starts());
        assert(q.started == started_by(plan, n + 1));
        assert(q.network == network_at(plan, outcomes, n + 1));
        if n + 1 >= plan.len() {
            assert(k == plan.len());
        }
    }
}

proof fn lemma_turning_step(p: Progress, outcomes: Seq<Outcome>, actions: Seq<Action>)
    requires
        p.wf(),
        tracks(p, outcomes, actions),
        p.phase == Phase::Redirecting || p.phase == Phase::Refusing,
    ensures
        tracks(
            p.after(outcome_at(outcomes, actions.len() as int)),
            outcomes,
            actions.push(p.current()),
        ),
{
    let plan = p.plan;
    let next = actions.push(p.current());
    let all = owed(plan, outcomes);
    lemma_first_halt_bounds(plan, outcomes, 0);
    assert(next == head(plan, outcomes));
    assert(stops(all.take(0)) =~= Seq::<Action>::empty());
    assert(next =~= head(plan, outcomes) + stops(all.take(0)));
    assert(all.skip(0) =~= all);
    if all.len() == 0 {
        assert(stops(all) =~= Seq::<Action>::empty());
        assert(next =~= head(plan, outcomes) + stops(all));
    }
}

proof fn lemma_winding_step(p: Progress, outcomes: Seq<Outcome>, actions: Seq<Action>)
    requires
        p.wf(),
        tracks(p, outcomes, actions),
        p.phase == Phase::Unwinding || p.phase == Phase::Draining,
    ensures
        tracks(
            p.after(outcome_at(outcomes, actions.len() as int)),
            outcomes,
            actions.push(p.current()),
        ),
{
    let plan = p.plan;
    let next = actions.push(p.current());
    let all = owed(plan, outcomes);
    let first = head(plan, outcomes);
    let j = actions.len() - first.len();
    assert(p.pending[0] == all[j]);
    assert(next =~= first + stops(all.take(j + 1)));
    assert(p.pending.skip(1) =~= all.skip(j + 1));
    if j + 1 == all.len() {
        assert(all.take(j + 1) =~= all);
    }
}

proof fn lemma_step(p: Progress, outcomes: Seq<Outcome>, actions: Seq<Action>)
    requires
        p.wf(),
        tracks(p, outcomes, actions),
        p.phase != Phase::Finished,
    ensures
        tracks(
            p.after(outcome_at(outcomes, actions.len() as int)),
            outcomes,
            actions.push(p.current()),
        ),
{
    match p.phase {
        Phase::Starting => lemma_starting_step(p, outcomes, actions),
        Phase::Redirecting => lemma_turning_step(p, outcomes, actions),
        Phase::Refusing => lemma_turning_step(p, outcomes, actions),
        _ => lemma_winding_step(p, outcomes, actions),
    }
}

/// How far a run is from its end, by phase.
spec fn phase_rank(phase: Phase) -> nat {
    match phase {
        Phase::Starting => 4,
        Phase::Redirecting => 3,
        Phase::Refusing => 3,
        Phase::Unwinding => 2,
        Phase::Draining => 2,
        Phase::Finished => 0,
    }
}

/// How far a run is from leaving its phase.
spec fn phase_left(p: Progress) -> nat {
    match p.phase {
        Phase::Starting => (p.plan.len() - p.cursor) as nat,
        Phase::Unwinding => p.pending.len(),
        Phase::Draining => p.pending.len(),
        _ => 0,
    }
}

/// Runs a startup that follows `plan` against a caller that answers the
/// action at each place with the outcome listed at that place, and with
/// `Completed` once the list has ended.
pub fn run_plan(plan: Vec<Step>, outcomes: &Vec<Outcome>) -> (report: Report)
    ensures
        report.actions@ == trace(plan@, outcomes@),
        report.result is Err <==> verdict(plan@, outcomes@) is Some,
        report.result is Err ==> report.result->Err_0@ == verdict(plan@, outcomes@)->Some_0,
{
    let ghost steps = plan@;
    let mut seq = Sequencer::with_plan(plan);
    let mut actions: Vec<Action> = Vec::new();
    let completed = Outcome::Completed;
    proof {
        lemma_first_halt_bounds(steps, outcomes@, 0);
        assert(actions@ =~= performed(steps, outcomes@, 0));
    }
    while seq.phase() != Phase::Finished
        invariant
            seq.wf(),
            seq@.plan == steps,
            tracks(seq@, outcomes@, actions@),
            completed == Outcome::Completed,
        decreases phase_rank(seq@.phase), phase_left(seq@),
    {
        let action = seq.current();
        let place = actions.len();
        proof {
            lemma_step(seq@, outcomes@, actions@);
        }
        actions.push(action);
        if place < outcomes.len() {
            seq.advance(&outcomes[place]);
        } else {
            seq.advance(&completed);
        }
    }
    actions.push(Action::Finish);
    let result = match seq.result() {
        Some(Err(text)) => Err(text),
        _ => Ok(()),
    };
    Report { actions, result }
}

/// Runs the startup that `cmd` asks for against a caller that answers the
/// action at each place with the outcome listed at that place. Where `cmd`
/// asks for the browser interface with the web transport off, nothing is
/// asked for and the run fails.
pub fn execute(cmd: &RunCmd, outcomes: &Vec<Outcome>) -> (report: Report)
    ensures
        cmd.spec_inconsistent() ==> report.actions@ == seq![Action::Finish] && report.result is Err
            && report.result->Err_0@ == RunCmd::inconsistency(),
        !cmd.spec_inconsistent() ==> report.actions@ == trace(cmd.spec_startup_plan(), outcomes@)
            && (report.result is Err <==> verdict(cmd.spec_startup_plan(), outcomes@) is Some) && (
        report.result is Err ==> report.result->Err_0@ == verdict(
            cmd.spec_startup_plan(),
            outcomes@,
        )->Some_0),
{
    match cmd.check() {
        Err(text) => {
            let mut actions: Vec<Action> = Vec::new();
            actions.push(Action::Finish);
            assert(actions@ =~= seq![Action::Finish]);
            Report { actions, result: Err(text) }
        },
        Ok(()) => run_plan(cmd.startup_plan(), outcomes),
    }
}

proof fn lemma_first_halt_from(plan: Seq<Step>, outcomes: Seq<Outcome>, from: int, k: int)
    requires
        0 <= from <= k <= plan.len(),
        forall|j: int| from <= j < k ==> !halts_at(plan, outcomes, j),
        k < plan.len() ==> halts_at(plan, outcomes, k),
    ensures
        first_halt(plan, outcomes, from) == k,
    decreases k - from,
{
    if from < k {
        lemma_first_halt_from(plan, outcomes, from + 1, k);
    }
}

/// The subsystems that the first `n` steps start are those of its `Start`
/// steps, and none is among them twice where no step is twice in the plan.
pub proof fn lemma_started_by(plan: Seq<Step>, n: int)
    requires
        0 <= n <= plan.len(),
    ensures
        started_by(plan, n).len() <= n,
        forall|s: Subsystem|
            started_by(plan, n).contains(s) <==> exists|i: int|
                0 <= i < n && #[trigger] plan[i] == Step::Start(s),
        plan.no_duplicates() ==> started_by(plan, n).no_duplicates(),
    decreases n,
{
    if n > 0 {
        lemma_started_by(plan, n - 1);
        let before = started_by(plan, n - 1);
        let now = started_by(plan, n);
        match plan[n - 1].starts() {
            Some(x) => {
                assert(now == before.push(x));
                assert(plan[n - 1] == Step::Start(x));
                assert forall|s: Subsystem| now.contains(s) implies exists|i: int|
                    0 <= i < n && #[trigger] plan[i] == Step::Start(s) by {
                    let w = choose|w: int| 0 <= w < now.len() && now[w] == s;
                    if w < before.len() {
                        assert(before.contains(s));
                        let i = choose|i: int| 0 <= i < n - 1 && #[trigger] plan[i] == Step::Start(s);
                        assert(0 <= i < n && plan[i] == Step::Start(s));
                    }
                }
                assert forall|s: Subsystem|
                    (exists|i: int| 0 <= i < n && #[trigger] plan[i] == Step::Start(s))
                    implies now.contains(s) by {
                    let i = choose|i: int| 0 <= i < n && #[trigger] plan[i] == Step::Start(s);
                    if i < n - 1 {
                        assert(before.contains(s));
                        let w = choose|w: int| 0 <= w < before.len() && before[w] == s;
                        assert(now[w] == s);
                    } else {
                        assert(now[before.len() as int] == s);
                    }
                }
                if plan.no_duplicates() {
                    if before.contains(x) {
                        let i = choose|i: int| 0 <= i < n - 1 && #[trigger] plan[i] == Step::Start(x);
                        assert(plan[i] == plan[n - 1]);
                    }
                    assert forall|a: int, b: int| 0 <= a < now.len() && 0 <= b < now.len() && a != b
                        implies now[a] != now[b] by {
                        if a == before.len() {
                            assert(before[b] == now[b]);
                        } else if b == before.len() {
                            assert(before[a] == now[a]);
                        } else {
                            assert(before[a] == now[a] && before[b] == now[b]);
                        }
                    }
                }
            },
            None => {
                assert forall|s: Subsystem|
                    (exists|i: int| 0 <= i < n && #[trigger] plan[i] == Step::Start(s))
                    implies now.contains(s) by {
                    let i = choose|i: int| 0 <= i < n && #[trigger] plan[i] == Step::Start(s);
                    assert(i < n - 1);
                }
            },
        }
    } else {
        assert forall|s: Subsystem| !started_by(plan, n).contains(s) by {}
    }
}

/// A startup whose step at place `k` is the first to fail for good is
/// unwound: nothing of the plan is asked for after that step, each
/// subsystem that the steps before it started is stopped, the last started
/// first, and the caller is told why the step failed.
pub proof fn lemma_failed_startup_is_unwound(plan: Seq<Step>, outcomes: Seq<Outcome>, k: int)
    requires
        halts_at(plan, outcomes, k),
        forall|j: int| 0 <= j < k ==> !halts_at(plan, outcomes, j),
        presented(plan, outcomes, k) != Step::ProbeEndpoint,
    ensures
        trace(plan, outcomes) == (performed(plan, outcomes, k + 1) + stops(
            started_by(plan, k).reverse(),
        )).push(Action::Finish),
        verdict(plan, outcomes) == Some(
            failure_text(presented(plan, outcomes, k), outcome_at(outcomes, k).reason()),
        ),
        plan.no_duplicates() ==> started_by(plan, k).reverse().no_duplicates(),
{
    lemma_first_halt_from(plan, outcomes, 0, k);
    lemma_started_by(plan, k);
    let order = started_by(plan, k);
    if order.no_duplicates() {
        assert forall|a: int, b: int|
            0 <= a < order.len() && 0 <= b < order.len() && a != b implies order.reverse()[a]
            != order.reverse()[b] by {}
    }
}

/// A startup in which no step fails for good goes through and, once
/// termination is requested, drains: new work is refused before anything is
/// stopped, every subsystem that was started is stopped in the order of a
/// drain, and the run succeeds.
pub proof fn lemma_completed_run_drains(plan: Seq<Step>, outcomes: Seq<Outcome>)
    requires
        forall|j: int| 0 <= j < plan.len() ==> !halts_at(plan, outcomes, j),
    ensures
        trace(plan, outcomes) == (performed(plan, outcomes, plan.len() as int).push(
            Action::RefuseNewWork,
        ) + stops(spec_drain_order(started_by(plan, plan.len() as int)))).push(Action::Finish),
        verdict(plan, outcomes) is None,
{
    lemma_first_halt_from(plan, outcomes, 0, plan.len() as int);
}

/// Where the probe finds the address taken, the run opens that address,
/// stops what the steps before the probe started, and succeeds.
pub proof fn lemma_taken_address_is_opened(plan: Seq<Step>, outcomes: Seq<Outcome>, k: int)
    requires
        halts_at(plan, outcomes, k),
        forall|j: int| 0 <= j < k ==> !halts_at(plan, outcomes, j),
        presented(plan, outcomes, k) == Step::ProbeEndpoint,
    ensures
        trace(plan, outcomes) == (performed(plan, outcomes, k + 1).push(
            Action::Perform(Step::OpenEndpoint),
        ) + stops(started_by(plan, k).reverse())).push(Action::Finish),
        verdict(plan, outcomes) is None,
{
    lemma_first_halt_from(plan, outcomes, 0, k);
}

} // verus!
