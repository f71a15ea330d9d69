//! The observers of the storage engine's events.

use vstd::prelude::*;

verus! {

/// Who is told of the events of the storage engine.
#[derive(Clone, Copy, Debug, PartialEq, Eq, Structural)]
pub enum Observer {
    /// The synchronization engine.
    Sync,
    /// The periodic report to the operator.
    Informant,
    /// The periodic background task.
    Watcher,
}

/// One event owed to one observer.
#[derive(Clone, Copy, Debug, PartialEq, Eq, Structural)]
pub struct Delivery {
    pub observer: Observer,
    /// The event, by the number the storage engine gave it.
    pub event: u64,
}

/// The observers in the order in which they registered. Observers are only
/// ever added.
#[derive(Debug)]
pub struct NotifySet {
    observers: Vec<Observer>,
}

impl View for NotifySet {
    type V = Seq<Observer>;

    closed spec fn view(&self) -> Seq<Observer> {
        self.observers@
    }
}

/// The deliveries of one event: one to each observer, in their order.
pub open spec fn deliveries_of(observers: Seq<Observer>, event: u64) -> Seq<Delivery> {
    Seq::new(observers.len(), |i: int| Delivery { observer: observers[i], event })
}

impl NotifySet {
    /// A set without observers.
    pub fn new() -> (set: NotifySet)
        ensures
            set@ == Seq::<Observer>::empty(),
    {
        NotifySet { observers: Vec::new() }
    }

    /// Registers an observer behind those that are there.
    pub fn add_notify(&mut self, observer: Observer)
        ensures
            final(self)@ == old(self)@.push(observer),
    {
        self.observers.push(observer);
    }

    /// How many observers there are.
    pub fn len(&self) -> (n: usize)
        ensures
            n == self@.len(),
    {
        self.observers.len()
    }

    /// What is owed when the storage engine reports `event`: one delivery
    /// to each observer, in the order in which they registered.
    pub fn deliver(&self, event: u64) -> (owed: Vec<Delivery>)
        ensures
            owed@ == deliveries_of(self@, event),
    {
        let mut owed: Vec<Delivery> = Vec::new();
        let mut i: usize = 0;
        while i < self.observers.len()
            invariant
                i <= self.observers.len(),
                owed@ == deliveries_of(self.observers@.take(i as int), event),
            decreases self.observers.len() - i,
        {
            owed.push(Delivery { observer: self.observers[i], event });
            i = i + 1;
            assert(owed@ =~= deliveries_of(self.observers@.take(i as int), event));
        }
        assert(self.observers@.take(self.observers.len() as int) =~= self.observers@);
        owed
    }
}

} // verus!
