//! The bootstrap sequencer: from what has happened so far to the next action.
//!
//! The sequencer performs nothing itself. Its caller asks for the current
//! action, performs it, and reports the outcome; the sequencer then decides
//! what comes next. A failed startup is unwound before the failure is handed
//! back, and a node that ran is drained in the order its parts depend on
//! each other.

use vstd::prelude::*;
use vstd::string::*;
use crate::config::RunCmd;
use crate::step::{Action, Outcome, Step};
use crate::subsystem::{drain_order, spec_drain_order, unwind_order, Subsystem};
use crate::text::joined;

verus! {

/// Where a run stands.
#[derive(Clone, Copy, Debug, PartialEq, Eq, Structural)]
pub enum Phase {
    /// The steps of the plan are being performed.
    Starting,
    /// Another instance serves already: its address is about to be opened.
    Redirecting,
    /// A step failed: what was started is being stopped.
    Unwinding,
    /// Termination was requested: new scheduled work is about to be refused.
    Refusing,
    /// The node is being taken down.
    Draining,
    /// Nothing is left to do.
    Finished,
}

/// The state of a sequencer, as the contracts speak of it.
pub struct Progress {
    /// The steps of an uninterrupted startup.
    pub plan: Seq<Step>,
    /// How many steps of the plan are behind us.
    pub cursor: nat,
    pub phase: Phase,
    /// Whether the settled mode lets the node join the network.
    pub network: bool,
    /// The subsystems that run, in the order they were started.
    pub started: Seq<Subsystem>,
    /// The stops still owed, the next one first.
    pub pending: Seq<Subsystem>,
    /// Why the run failed, if it did.
    pub failure: Option<Seq<char>>,
}

/// The step as it is handed out: a node whose mode keeps it off the network
/// is told to stay offline where the plan says to join.
pub open spec fn present(step: Step, network: bool) -> Step {
    if step == Step::StartNetwork && !network {
        Step::StayOffline
    } else {
        step
    }
}

/// What the caller is told when `step` failed for `reason`.
pub open spec fn failure_text(step: Step, reason: Seq<char>) -> Seq<char> {
    match step {
        Step::Start(Subsystem::Storage) => "Client service error: "@ + reason,
        Step::Start(Subsystem::Sync) => "Sync error: "@ + reason,
        _ => reason,
    }
}

/// The state in which `stops` are owed, or the final one if none is.
pub open spec fn wind_down(p: Progress, phase: Phase, stops: Seq<Subsystem>) -> Progress {
    if stops.len() == 0 {
        Progress { phase: Phase::Finished, pending: Seq::empty(), ..p }
    } else {
        Progress { phase, pending: stops, ..p }
    }
}

impl Progress {
    /// What holds of every state a sequencer can be in.
    pub open spec fn wf(self) -> bool {
        &&& self.cursor <= self.plan.len()
        &&& self.phase == Phase::Starting ==> self.cursor < self.plan.len()
        &&& (self.phase == Phase::Unwinding || self.phase == Phase::Draining)
            ==> self.pending.len() > 0
    }

    /// The action that is due.
    pub open spec fn current(self) -> Action {
        match self.phase {
            Phase::Starting => Action::Perform(
                present(self.plan[self.cursor as int], self.network),
            ),
            Phase::Redirecting => Action::Perform(Step::OpenEndpoint),
            Phase::Refusing => Action::RefuseNewWork,
            Phase::Unwinding => Action::Stop(self.pending[0]),
            Phase::Draining => Action::Stop(self.pending[0]),
            Phase::Finished => Action::Finish,
        }
    }

    /// The state once the action that is due has had `outcome`.
    pub open spec fn after(self, outcome: Outcome) -> Progress {
        match self.phase {
            Phase::Starting => {
                let step = present(self.plan[self.cursor as int], self.network);
                if outcome.failed() && !step.best_effort() {
                    if step == Step::ProbeEndpoint {
                        Progress { phase: Phase::Redirecting, ..self }
                    } else {
                        wind_down(
                            Progress {
                                failure: Some(failure_text(step, outcome.reason())),
                                ..self
                            },
                            Phase::Unwinding,
                            self.started.reverse(),
                        )
                    }
                } else {
                    let started = match step.starts() {
                        Some(s) => self.started.push(s),
                        None => self.started,
                    };
                    let network = match outcome {
                        Outcome::Resolved(mode) if step == Step::ResolveSettings =>
                            mode.network_enabled(),
                        _ => self.network,
                    };
                    let phase = if self.cursor + 1 < self.plan.len() {
                        Phase::Starting
                    } else {
                        Phase::Refusing
                    };
                    Progress { cursor: self.cursor + 1, phase, started, network, ..self }
                }
            },
            Phase::Redirecting => wind_down(self, Phase::Unwinding, self.started.reverse()),
            Phase::Refusing => wind_down(self, Phase::Draining, spec_drain_order(self.started)),
            Phase::Unwinding => wind_down(self, Phase::Unwinding, self.pending.skip(1)),
            Phase::Draining => wind_down(self, Phase::Draining, self.pending.skip(1)),
            Phase::Finished => self,
        }
    }
}

/// Decides what a run does next.
pub struct Sequencer {
    plan: Vec<Step>,
    cursor: usize,
    phase: Phase,
    network: bool,
    started: Vec<Subsystem>,
    stops: Vec<Subsystem>,
    stopped: usize,
    failure: Option<String>,
}

impl View for Sequencer {
    type V = Progress;

    closed spec fn view(&self) -> Progress {
        Progress {
            plan: self.plan@,
            cursor: self.cursor as nat,
            phase: self.phase,
            network: self.network,
            started: self.started@,
            pending: self.stops@.skip(self.stopped as int),
            failure: match self.failure {
                Some(text) => Some(text@),
                None => None,
            },
        }
    }
}

fn failure_message(step: Step, reason: &String) -> (text: String)
    ensures
        text@ == failure_text(step, reason@),
{
    match step {
        Step::Start(Subsystem::Storage) => joined("Client service error: ", reason.as_str()),
        Step::Start(Subsystem::Sync) => joined("Sync error: ", reason.as_str()),
        _ => reason.clone(),
    }
}

impl Sequencer {
    /// What holds of every sequencer that this library hands out.
    pub open spec fn wf(&self) -> bool {
        self@.wf() && self.bounded()
    }

    /// The part of `wf` that speaks of what the contracts do not show.
    pub closed spec fn bounded(&self) -> bool {
        self.stopped <= self.stops.len()
    }

    /// A sequencer for a startup that follows `plan`. Once every step of the
    /// plan is behind it, new work is refused and what runs is drained.
    pub fn with_plan(plan: Vec<Step>) -> (seq: Sequencer)
        ensures
            seq.wf(),
            seq@ == (Progress {
                plan: plan@,
                cursor: 0,
                phase: if plan.len() > 0 {
                    Phase::Starting
                } else {
                    Phase::Refusing
                },
                network: true,
                started: Seq::empty(),
                pending: Seq::empty(),
                failure: None,
            }),
    {
        let phase = if plan.len() > 0 {
            Phase::Starting
        } else {
            Phase::Refusing
        };
        let seq = Sequencer {
            plan,
            cursor: 0,
            phase,
            network: true,
            started: Vec::new(),
            stops: Vec::new(),
            stopped: 0,
            failure: None,
        };
        assert(seq@.pending =~= Seq::empty());
        seq
    }

    /// A sequencer for the startup that `cmd` asks for. Where `cmd` asks for
    /// the browser interface with the web transport off, the run is over
    /// before it began, with that failure.
    pub fn new(cmd: &RunCmd) -> (seq: Sequencer)
        ensures
            seq.wf(),
            seq@.cursor == 0,
            seq@.started == Seq::<Subsystem>::empty(),
            seq@.pending == Seq::<Subsystem>::empty(),
            seq@.network,
            seq@.plan == cmd.spec_startup_plan(),
            cmd.spec_inconsistent() ==> seq@.phase == Phase::Finished && seq@.failure == Some(
                RunCmd::inconsistency(),
            ),
            !cmd.spec_inconsistent() ==> seq@.phase == Phase::Starting && seq@.failure.is_none(),
    {
        let plan = cmd.startup_plan();
        match cmd.check() {
            Ok(()) => Sequencer::with_plan(plan),
            Err(text) => {
                let seq = Sequencer {
                    plan,
                    cursor: 0,
                    phase: Phase::Finished,
                    network: true,
                    started: Vec::new(),
                    stops: Vec::new(),
                    stopped: 0,
                    failure: Some(text),
                };
                assert(seq@.pending =~= Seq::empty());
                seq
            },
        }
    }

    /// Where the run stands.
    pub fn phase(&self) -> (phase: Phase)
        ensures
            phase == self@.phase,
    {
        self.phase
    }

    /// The action that is due. Once it is `Finish`, it stays so.
    pub fn current(&self) -> (action: Action)
        requires
            self.wf(),
        ensures
            action == self@.current(),
    {
        match self.phase {
            Phase::Starting => {
                let step = self.plan[self.cursor];
                if step == Step::StartNetwork && !self.network {
                    Action::Perform(Step::StayOffline)
                } else {
                    Action::Perform(step)
                }
            },
            Phase::Redirecting => Action::Perform(Step::OpenEndpoint),
            Phase::Refusing => Action::RefuseNewWork,
            Phase::Unwinding => Action::Stop(self.stops[self.stopped]),
            Phase::Draining => Action::Stop(self.stops[self.stopped]),
            Phase::Finished => Action::Finish,
        }
    }

    /// What the run came to: nothing while actions are due, then success or
    /// the reason of the failure.
    pub fn result(&self) -> (r: Option<Result<(), String>>)
        ensures
            r is Some <==> self@.phase == Phase::Finished,
            r is Some ==> (r->Some_0 is Err <==> self@.failure is Some),
            r is Some && self@.failure is Some ==> r->Some_0->Err_0@ == self@.failure->Some_0,
    {
        match self.phase {
            Phase::Finished => match &self.failure {
                Some(text) => Some(Err(text.clone())),
                None => Some(Ok(())),
            },
            _ => None,
        }
    }

    fn wind_down(&mut self, phase: Phase, stops: Vec<Subsystem>)
        requires
            old(self).wf(),
            phase == Phase::Unwinding || phase == Phase::Draining,
        ensures
            final(self).wf(),
            final(self)@ == wind_down(old(self)@, phase, stops@),
    {
        if stops.len() == 0 {
            self.phase = Phase::Finished;
            self.stops = Vec::new();
        } else {
            self.phase = phase;
            self.stops = stops;
        }
        self.stopped = 0;
        assert(self@.pending =~= wind_down(old(self)@, phase, stops@).pending);
    }

    /// Takes in how the action that was due went.
    pub fn advance(&mut self, outcome: &Outcome)
        requires
            old(self).wf(),
        ensures
            final(self).wf(),
            final(self)@ == old(self)@.after(*outcome),
    {
        match self.phase {
            Phase::Starting => {
                let planned = self.plan[self.cursor];
                let step = if planned == Step::StartNetwork && !self.network {
                    Step::StayOffline
                } else {
                    planned
                };
                match outcome {
                    Outcome::Failed(reason) if !step.best_effort() => {
                        if step == Step::ProbeEndpoint {
                            self.phase = Phase::Redirecting;
                        } else {
                            self.failure = Some(failure_message(step, reason));
                            let stops = unwind_order(&self.started);
                            self.wind_down(Phase::Unwinding, stops);
                        }
                    },
                    _ => {
                        match step.starts() {
                            Some(s) => {
                                self.started.push(s);
                            },
                            None => {},
                        }
                        match outcome {
                            Outcome::Resolved(mode) if step == Step::ResolveSettings => {
                                self.network = mode.network_enabled();
                            },
                            _ => {},
                        }
                        assert(self.cursor < self.plan.len());
                        self.cursor = self.cursor + 1;
                        if self.cursor >= self.plan.len() {
                            self.phase = Phase::Refusing;
                        }
                    },
                }
            },
            Phase::Redirecting => {
                let stops = unwind_order(&self.started);
                self.wind_down(Phase::Unwinding, stops);
            },
            Phase::Refusing => {
                let stops = drain_order(&self.started);
                self.wind_down(Phase::Draining, stops);
            },
            Phase::Unwinding | Phase::Draining => {
                self.stopped = self.stopped + 1;
                assert(self.stops@.skip(self.stopped as int) =~= old(self)@.pending.skip(1));
                if self.stopped >= self.stops.len() {
                    self.phase = Phase::Finished;
                    self.stops = Vec::new();
                    self.stopped = 0;
                    assert(self@.pending =~= Seq::empty());
                }
            },
            Phase::Finished => {},
        }
    }
}

} // verus!
