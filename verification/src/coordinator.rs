//! The shutdown coordinator: one guarded state that an operator's signal and
//! the failure hub both act on, and that the periodic task runner asks
//! before it schedules a cycle.

use vstd::prelude::*;

verus! {

/// Why termination was requested.
#[derive(Clone, Copy, Debug, PartialEq, Eq, Structural)]
pub enum Cause {
    /// The operator asked for it.
    Operator,
    /// A subsystem failed beyond repair.
    Failure,
}

/// Where the node stands between running and stopped.
#[derive(Clone, Copy, Debug, PartialEq, Eq, Structural)]
pub enum State {
    Running,
    TerminationRequested,
    Draining,
    Stopped,
}

/// What can happen to a coordinator.
#[derive(Clone, Copy, Debug, PartialEq, Eq, Structural)]
pub enum Event {
    /// Termination is requested.
    Request(Cause),
    /// The teardown begins.
    BeginDrain,
    /// The teardown is over.
    Finish,
    /// A cycle of the periodic task is due.
    Tick,
}

/// The state of a coordinator, as the contracts speak of it.
pub struct Status {
    pub state: State,
    /// The cause of the first request.
    pub cause: Option<Cause>,
    /// Whether new scheduled work is taken on.
    pub accepting: bool,
    /// How many cycles of the periodic task were scheduled; the count stops
    /// at the largest number of 64 bits.
    pub scheduled: nat,
}

impl Status {
    /// What holds of every state a coordinator can be in.
    pub open spec fn wf(self) -> bool {
        &&& self.accepting <==> (self.state == State::Running || self.state
            == State::TerminationRequested)
        &&& self.cause is Some <==> self.state != State::Running
        &&& self.scheduled <= u64::MAX
    }

    /// Whether `event` is acted on in this state; if it is not, it changes
    /// nothing.
    pub open spec fn takes(self, event: Event) -> bool {
        match event {
            Event::Request(_) => self.state == State::Running,
            Event::BeginDrain => self.state == State::TerminationRequested,
            Event::Finish => self.state == State::Draining,
            Event::Tick => self.accepting,
        }
    }

    /// The state after `event`.
    pub open spec fn after(self, event: Event) -> Status {
        if !self.takes(event) {
            self
        } else {
            match event {
                Event::Request(cause) => Status {
                    state: State::TerminationRequested,
                    cause: Some(cause),
                    ..self
                },
                Event::BeginDrain => Status { state: State::Draining, accepting: false, ..self },
                Event::Finish => Status { state: State::Stopped, ..self },
                Event::Tick => Status {
                    scheduled: if self.scheduled < u64::MAX {
                        self.scheduled + 1
                    } else {
                        self.scheduled
                    },
                    ..self
                },
            }
        }
    }

    /// The state after `events`, one after the other.
    pub open spec fn after_all(self, events: Seq<Event>) -> Status
        decreases events.len(),
    {
        if events.len() == 0 {
            self
        } else {
            self.after(events[0]).after_all(events.skip(1))
        }
    }

    /// How often `events`, one after the other, take the coordinator into
    /// `Draining`.
    pub open spec fn drains(self, events: Seq<Event>) -> nat
        decreases events.len(),
    {
        if events.len() == 0 {
            0
        } else {
            let next = self.after(events[0]);
            let entered: nat = if self.state != State::Draining && next.state == State::Draining {
                1
            } else {
                0
            };
            entered + next.drains(events.skip(1))
        }
    }
}

/// Guards the way from running to stopped.
#[derive(Debug)]
pub struct Coordinator {
    state: State,
    cause: Option<Cause>,
    accepting: bool,
    scheduled: u64,
}

impl View for Coordinator {
    type V = Status;

    closed spec fn view(&self) -> Status {
        Status {
            state: self.state,
            cause: self.cause,
            accepting: self.accepting,
            scheduled: self.scheduled as nat,
        }
    }
}

impl Coordinator {
    /// What holds of every coordinator that this library hands out.
    pub open spec fn wf(&self) -> bool {
        self@.wf()
    }

    /// A coordinator for a node that runs.
    pub fn new() -> (c: Coordinator)
        ensures
            c.wf(),
            c@ == (Status { state: State::Running, cause: None, accepting: true, scheduled: 0 }),
    {
        Coordinator { state: State::Running, cause: None, accepting: true, scheduled: 0 }
    }

    /// Where the node stands.
    pub fn state(&self) -> (state: State)
        ensures
            state == self@.state,
    {
        self.state
    }

    /// The cause of the first request, once there was one.
    pub fn cause(&self) -> (cause: Option<Cause>)
        ensures
            cause == self@.cause,
    {
        self.cause
    }

    /// Whether new scheduled work is taken on.
    pub fn accepting(&self) -> (yes: bool)
        ensures
            yes == self@.accepting,
    {
        self.accepting
    }

    /// How many cycles of the periodic task were scheduled.
    pub fn scheduled(&self) -> (count: u64)
        ensures
            count == self@.scheduled,
    {
        self.scheduled
    }

    /// Requests termination. Only the first request of a run has an effect;
    /// the result says whether this one was it.
    pub fn request(&mut self, cause: Cause) -> (first: bool)
        requires
            old(self).wf(),
        ensures
            final(self).wf(),
            first == old(self)@.takes(Event::Request(cause)),
            final(self)@ == old(self)@.after(Event::Request(cause)),
    {
        match self.state {
            State::Running => {
                self.state = State::TerminationRequested;
                self.cause = Some(cause);
                true
            },
            _ => false,
        }
    }

    /// Begins the teardown once termination was requested: from here on no
    /// new scheduled work is taken on. The result says whether the teardown
    /// began with this call.
    pub fn begin_drain(&mut self) -> (began: bool)
        requires
            old(self).wf(),
        ensures
            final(self).wf(),
            began == old(self)@.takes(Event::BeginDrain),
            final(self)@ == old(self)@.after(Event::BeginDrain),
    {
        match self.state {
            State::TerminationRequested => {
                self.accepting = false;
                self.state = State::Draining;
                true
            },
            _ => false,
        }
    }

    /// Ends the teardown. The result says whether this call ended it.
    pub fn finish(&mut self) -> (ended: bool)
        requires
            old(self).wf(),
        ensures
            final(self).wf(),
            ended == old(self)@.takes(Event::Finish),
            final(self)@ == old(self)@.after(Event::Finish),
    {
        match self.state {
            State::Draining => {
                self.state = State::Stopped;
                true
            },
            _ => false,
        }
    }

    /// Asks for one more cycle of the periodic task. The cycle is scheduled,
    /// and counted, only while new work is taken on.
    pub fn schedule_cycle(&mut self) -> (scheduled: bool)
        requires
            old(self).wf(),
        ensures
            final(self).wf(),
            scheduled == old(self)@.takes(Event::Tick),
            final(self)@ == old(self)@.after(Event::Tick),
    {
        if self.accepting {
            if self.scheduled < u64::MAX {
                self.scheduled = self.scheduled + 1;
            }
            true
        } else {
            false
        }
    }

    /// Applies `event`. The result says whether it changed anything.
    pub fn apply(&mut self, event: Event) -> (taken: bool)
        requires
            old(self).wf(),
        ensures
            final(self).wf(),
            taken == old(self)@.takes(event),
            final(self)@ == old(self)@.after(event),
    {
        match event {
            Event::Request(cause) => self.request(cause),
            Event::BeginDrain => self.begin_drain(),
            Event::Finish => self.finish(),
            Event::Tick => self.schedule_cycle(),
        }
    }
}

/// A request for termination that comes after another changes nothing:
/// which of two triggers came first decides the cause, and no more.
pub proof fn lemma_second_request_is_ignored(s: Status, first: Cause, second: Cause)
    requires
        s.wf(),
    ensures
        s.after(Event::Request(first)).after(Event::Request(second)) == s.after(
            Event::Request(first),
        ),
        !s.after(Event::Request(first)).takes(Event::Request(second)),
{
}

/// Whatever happens to a coordinator, in whatever order, its state stays
/// well formed.
pub proof fn lemma_after_all_wf(s: Status, events: Seq<Event>)
    requires
        s.wf(),
    ensures
        s.after_all(events).wf(),
    decreases events.len(),
{
    if events.len() > 0 {
        lemma_after_all_wf(s.after(events[0]), events.skip(1));
    }
}

/// Whatever happens to a coordinator, in whatever order, the teardown
/// begins at most once; and it has begun once if the coordinator ends up
/// draining or stopped after it ran.
pub proof fn lemma_drains_once(s: Status, events: Seq<Event>)
    requires
        s.wf(),
    ensures
        s.drains(events) <= 1,
        (s.state == State::Draining || s.state == State::Stopped) ==> s.drains(events) == 0 && (
        s.after_all(events).state == State::Draining || s.after_all(events).state
            == State::Stopped),
        (s.state == State::Running || s.state == State::TerminationRequested) ==> (s.drains(events)
            == 1 <==> (s.after_all(events).state == State::Draining || s.after_all(events).state
            == State::Stopped)),
    decreases events.len(),
{
    if events.len() > 0 {
        lemma_drains_once(s.after(events[0]), events.skip(1));
    }
}

/// Once the teardown has begun, no cycle of the periodic task is scheduled
/// any more, whatever happens and in whatever order.
pub proof fn lemma_no_cycle_after_drain(s: Status, events: Seq<Event>)
    requires
        s.wf(),
        s.state == State::Draining || s.state == State::Stopped,
    ensures
        s.after_all(events).scheduled == s.scheduled,
        !s.after_all(events).accepting,
        forall|i: int|
            0 <= i < events.len() ==> !(#[trigger] s.after_all(events.take(i))).takes(Event::Tick),
    decreases events.len(),
{
    if events.len() > 0 {
        let next = s.after(events[0]);
        let rest = events.skip(1);
        lemma_no_cycle_after_drain(next, rest);
        assert forall|i: int| 0 <= i < events.len() implies !(#[trigger] s.after_all(
            events.take(i),
        )).takes(Event::Tick) by {
            if i == 0 {
                assert(events.take(0).len() == 0);
            } else {
                assert(events.take(i).skip(1) =~= rest.take(i - 1));
                assert(events.take(i)[0] == events[0]);
                assert(s.after_all(events.take(i)) == next.after_all(rest.take(i - 1)));
            }
        }
    }
}

} // verus!
