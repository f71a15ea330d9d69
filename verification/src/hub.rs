//! The failure hub: the one place where a subsystem that died is heard, and
//! from where everyone who asked is told.

use vstd::prelude::*;
use crate::subsystem::Subsystem;

verus! {

/// One call owed to a listener.
#[derive(Clone, Debug)]
pub struct Notice {
    /// The listener, by the name it registered under.
    pub listener: u64,
    /// What the failed subsystem gave as the reason.
    pub reason: String,
}

/// The state of a hub, as the contracts speak of it.
pub struct HubView {
    /// The subsystems whose failures are forwarded, in the order they
    /// registered.
    pub sources: Seq<Subsystem>,
    /// The listeners, in the order they registered.
    pub listeners: Seq<u64>,
}

/// Collects failures and says who is to hear of them.
#[derive(Debug)]
pub struct FailureHub {
    sources: Vec<Subsystem>,
    listeners: Vec<u64>,
}

impl View for FailureHub {
    type V = HubView;

    closed spec fn view(&self) -> HubView {
        HubView { sources: self.sources@, listeners: self.listeners@ }
    }
}

/// One notice for each listener, in the order of the listeners, each with
/// the same reason.
pub open spec fn notices_for(listeners: Seq<u64>, reason: Seq<char>, notices: Seq<Notice>) -> bool {
    &&& notices.len() == listeners.len()
    &&& forall|i: int|
        0 <= i < notices.len() ==> (#[trigger] notices[i]).listener == listeners[i]
            && notices[i].reason@ == reason
}

impl FailureHub {
    /// A hub that nobody has registered with.
    pub fn new() -> (hub: FailureHub)
        ensures
            hub@.sources == Seq::<Subsystem>::empty(),
            hub@.listeners == Seq::<u64>::empty(),
    {
        FailureHub { sources: Vec::new(), listeners: Vec::new() }
    }

    /// Registers a subsystem whose failures are to be forwarded.
    pub fn register_failure_source(&mut self, subsystem: Subsystem)
        ensures
            final(self)@.sources == old(self)@.sources.push(subsystem),
            final(self)@.listeners == old(self)@.listeners,
    {
        self.sources.push(subsystem);
    }

    /// Registers a listener. Listeners are never removed.
    pub fn on_failure(&mut self, listener: u64)
        ensures
            final(self)@.listeners == old(self)@.listeners.push(listener),
            final(self)@.sources == old(self)@.sources,
    {
        self.listeners.push(listener);
    }

    /// Whether failures of `subsystem` are forwarded.
    pub fn is_source(&self, subsystem: Subsystem) -> (yes: bool)
        ensures
            yes == self@.sources.contains(subsystem),
    {
        let mut i: usize = 0;
        while i < self.sources.len()
            invariant
                i <= self.sources.len(),
                forall|j: int| 0 <= j < i ==> self.sources[j] != subsystem,
            decreases self.sources.len() - i,
        {
            if self.sources[i] == subsystem {
                return true;
            }
            i = i + 1;
        }
        false
    }

    /// Takes in a failure and gives the calls that are owed: one to every
    /// listener, whoever reported the failure.
    pub fn forward_failure(&self, reason: &String) -> (notices: Vec<Notice>)
        ensures
            notices_for(self@.listeners, reason@, notices@),
    {
        let mut notices: Vec<Notice> = Vec::new();
        let mut i: usize = 0;
        while i < self.listeners.len()
            invariant
                i <= self.listeners.len(),
                notices_for(self.listeners@.take(i as int), reason@, notices@),
            decreases self.listeners.len() - i,
        {
            notices.push(Notice { listener: self.listeners[i], reason: reason.clone() });
            i = i + 1;
        }
        notices
    }
}

} // verus!
