//! The long-lived parts of a node and the order in which they are taken down.

use vstd::prelude::*;

verus! {

/// A request-serving endpoint of the node.
#[derive(Clone, Copy, Debug, PartialEq, Eq, Structural)]
pub enum Transport {
    Http,
    Ipc,
    Web,
    Signer,
}

/// A part of the node with a start and a stop of its own.
#[derive(Clone, Copy, Debug, PartialEq, Eq, Structural)]
pub enum Subsystem {
    /// The persistent-state service: everything else reads from it.
    Storage,
    /// The peer-to-peer synchronization engine.
    Sync,
    /// One request-serving transport.
    Transport(Transport),
    /// The observers registered on the storage engine's event stream.
    Observers,
    /// The periodic background task.
    Watcher,
}

impl Subsystem {
    /// How late a subsystem is stopped when the node drains: transports
    /// first (0), then observers and watchers (1), then synchronization (2),
    /// and storage last (3).
    pub open spec fn spec_rank(self) -> u8 {
        match self {
            Subsystem::Transport(_) => 0,
            Subsystem::Observers => 1,
            Subsystem::Watcher => 1,
            Subsystem::Sync => 2,
            Subsystem::Storage => 3,
        }
    }

    #[verifier::when_used_as_spec(spec_rank)]
    pub fn rank(self) -> (r: u8)
        ensures
            r == self.spec_rank(),
    {
        match self {
            Subsystem::Transport(_) => 0,
            Subsystem::Observers => 1,
            Subsystem::Watcher => 1,
            Subsystem::Sync => 2,
            Subsystem::Storage => 3,
        }
    }
}

/// The members of `s` that are stopped at rank `r`, in the order of `s`.
pub open spec fn of_rank(s: Seq<Subsystem>, r: u8) -> Seq<Subsystem> {
    s.filter(|x: Subsystem| x.spec_rank() == r)
}

/// The order of the stops after a failed startup: the reverse of the order
/// in which the subsystems were started.
pub open spec fn spec_unwind_order(started: Seq<Subsystem>) -> Seq<Subsystem> {
    started.reverse()
}

/// The order of the stops when a running node drains: by rank, and within
/// one rank the subsystem started last is stopped first.
pub open spec fn spec_drain_order(started: Seq<Subsystem>) -> Seq<Subsystem> {
    let back = started.reverse();
    of_rank(back, 0) + of_rank(back, 1) + of_rank(back, 2) + of_rank(back, 3)
}

/// The stops owed after a failed startup, the first to make first.
pub fn unwind_order(started: &Vec<Subsystem>) -> (order: Vec<Subsystem>)
    ensures
        order@ == spec_unwind_order(started@),
{
    let mut order: Vec<Subsystem> = Vec::new();
    let mut left: usize = started.len();
    while left > 0
        invariant
            left <= started.len(),
            order.len() == started.len() - left,
            forall|i: int| 0 <= i < order.len() ==> order[i] == started[started.len() - 1 - i],
        decreases left,
    {
        left = left - 1;
        order.push(started[left]);
    }
    assert(order@ =~= started@.reverse());
    order
}

fn append_rank(order: &mut Vec<Subsystem>, from: &Vec<Subsystem>, r: u8)
    ensures
        final(order)@ == old(order)@ + of_rank(from@, r),
{
    let ghost before = order@;
    let ghost keep = |x: Subsystem| x.spec_rank() == r;
    let mut i: usize = 0;
    assert(from@.take(0) =~= Seq::<Subsystem>::empty());
    while i < from.len()
        invariant
            i <= from.len(),
            keep == |x: Subsystem| x.spec_rank() == r,
            order@ == before + from@.take(i as int).filter(keep),
        decreases from.len() - i,
    {
        let s = from[i];
        proof {
            assert(from@.take(i + 1) =~= from@.take(i as int).push(s));
            from@.take(i as int).lemma_filter_push(s, keep);
        }
        if s.rank() == r {
            order.push(s);
        }
        i = i + 1;
        assert(order@ =~= before + from@.take(i as int).filter(keep));
    }
    assert(from@.take(from.len() as int) =~= from@);
}

/// The stops owed when a running node drains, the first to make first.
pub fn drain_order(started: &Vec<Subsystem>) -> (order: Vec<Subsystem>)
    ensures
        order@ == spec_drain_order(started@),
{
    let back = unwind_order(started);
    let mut order: Vec<Subsystem> = Vec::new();
    append_rank(&mut order, &back, 0);
    append_rank(&mut order, &back, 1);
    append_rank(&mut order, &back, 2);
    append_rank(&mut order, &back, 3);
    assert(order@ =~= spec_drain_order(started@));
    order
}

/// The members of `s` rank by rank, each rank in the order of `s`.
pub open spec fn by_rank(s: Seq<Subsystem>) -> Seq<Subsystem> {
    of_rank(s, 0) + of_rank(s, 1) + of_rank(s, 2) + of_rank(s, 3)
}

proof fn lemma_by_rank_keeps_members(s: Seq<Subsystem>)
    ensures
        by_rank(s).to_multiset() =~= s.to_multiset(),
    decreases s.len(),
{
    broadcast use {
        vstd::seq_lib::lemma_multiset_commutative,
        vstd::seq_lib::to_multiset_build,
    };

    if s.len() == 0 {
        assert(by_rank(s) =~= s);
    } else {
        let t = s.drop_last();
        let x = s.last();
        lemma_by_rank_keeps_members(t);
        assert(s =~= t.push(x));
        t.lemma_filter_push(x, |y: Subsystem| y.spec_rank() == 0u8);
        t.lemma_filter_push(x, |y: Subsystem| y.spec_rank() == 1u8);
        t.lemma_filter_push(x, |y: Subsystem| y.spec_rank() == 2u8);
        t.lemma_filter_push(x, |y: Subsystem| y.spec_rank() == 3u8);
        assert(by_rank(t).to_multiset() =~= of_rank(t, 0).to_multiset().add(
            of_rank(t, 1).to_multiset(),
        ).add(of_rank(t, 2).to_multiset()).add(of_rank(t, 3).to_multiset()));
        assert(by_rank(s).to_multiset() =~= of_rank(s, 0).to_multiset().add(
            of_rank(s, 1).to_multiset(),
        ).add(of_rank(s, 2).to_multiset()).add(of_rank(s, 3).to_multiset()));
        assert(by_rank(s).to_multiset() =~= by_rank(t).to_multiset().insert(x));
    }
}

/// A drain stops what was started and nothing else: every subsystem is
/// stopped as often as it was started.
pub proof fn lemma_drain_stops_what_was_started(started: Seq<Subsystem>)
    ensures
        spec_drain_order(started).to_multiset() == started.to_multiset(),
        spec_drain_order(started).len() == started.len(),
        started.no_duplicates() ==> spec_drain_order(started).no_duplicates(),
{
    let order = spec_drain_order(started);
    lemma_by_rank_keeps_members(started.reverse());
    started.lemma_reverse_to_multiset();
    assert(order.to_multiset() =~= started.to_multiset());
    vstd::seq_lib::to_multiset_len(order);
    vstd::seq_lib::to_multiset_len(started);
    if started.no_duplicates() {
        started.lemma_multiset_has_no_duplicates();
        order.lemma_multiset_has_no_duplicates_conv();
    }
}

/// A drain goes by rank: transports before observers and watchers, these
/// before synchronization, and storage last.
pub proof fn lemma_drain_goes_by_rank(started: Seq<Subsystem>, i: int, j: int)
    requires
        0 <= i <= j < spec_drain_order(started).len(),
    ensures
        spec_drain_order(started)[i].spec_rank() <= spec_drain_order(started)[j].spec_rank(),
{
    broadcast use Seq::lemma_filter_pred;

    let back = started.reverse();
    let a = of_rank(back, 0);
    let b = of_rank(back, 1);
    let c = of_rank(back, 2);
    let d = of_rank(back, 3);
    let order = spec_drain_order(started);
    assert(order == a + b + c + d);
    assert forall|n: int| 0 <= n < order.len() implies (#[trigger] order[n]).spec_rank() == (if n
        < a.len() {
        0u8
    } else if n < a.len() + b.len() {
        1u8
    } else if n < a.len() + b.len() + c.len() {
        2u8
    } else {
        3u8
    }) by {
        if n < a.len() {
            assert(order[n] == a[n]);
        } else if n < a.len() + b.len() {
            assert(order[n] == b[n - a.len()]);
        } else if n < a.len() + b.len() + c.len() {
            assert(order[n] == c[n - a.len() - b.len()]);
        } else {
            assert(order[n] == d[n - a.len() - b.len() - c.len()]);
        }
    }
}

} // verus!
