//! What holds of the startup that a configuration asks for.

use vstd::prelude::*;
use crate::config::{optional, RunCmd};
use crate::step::{Action, Outcome, Step};
use crate::subsystem::{of_rank, spec_drain_order, Subsystem, Transport};
use crate::trace::{
    halts_at, lemma_completed_run_drains, lemma_failed_startup_is_unwound,
    lemma_taken_address_is_opened, network_at, outcome_at, performed, presented, started_by,
    stops, trace, verdict,
};

verus! {

/// The place of a step in the order of a startup.
pub open spec fn place(step: Step) -> int {
    match step {
        Step::ProbeEndpoint => 0,
        Step::RaiseFdLimit => 1,
        Step::CreateDirectories => 2,
        Step::LoadChainSpec => 3,
        Step::LoadRestartState => 4,
        Step::ResolveSettings => 5,
        Step::RunUpgrades => 6,
        Step::Daemonize => 7,
        Step::OpenCredentialStore => 8,
        Step::Start(Subsystem::Storage) => 9,
        Step::ForwardFailures => 10,
        Step::Start(Subsystem::Sync) => 11,
        Step::StartNetwork => 12,
        Step::StayOffline => 12,
        Step::AssembleBundle => 13,
        Step::Start(Subsystem::Transport(Transport::Http)) => 14,
        Step::Start(Subsystem::Transport(Transport::Ipc)) => 15,
        Step::Start(Subsystem::Transport(Transport::Web)) => 16,
        Step::Start(Subsystem::Transport(Transport::Signer)) => 17,
        Step::Start(Subsystem::Observers) => 18,
        Step::SaveRestartState => 19,
        Step::InstallModeHook => 20,
        Step::Start(Subsystem::Watcher) => 21,
        Step::OpenEndpoint => 22,
        Step::AwaitTermination => 23,
    }
}

/// The steps of `s` stand in the order of a startup, none twice, and their
/// places lie from `low` up to, not including, `high`.
pub open spec fn in_order(s: Seq<Step>, low: int, high: int) -> bool {
    &&& forall|i: int| 0 <= i < s.len() ==> low <= place(#[trigger] s[i]) < high
    &&& forall|i: int, j: int| 0 <= i < j < s.len() ==> place(s[i]) < place(s[j])
}

proof fn lemma_join(a: Seq<Step>, b: Seq<Step>, low: int, mid: int, high: int)
    requires
        in_order(a, low, mid),
        in_order(b, mid, high),
        low <= mid <= high,
    ensures
        in_order(a + b, low, high),
{
    let s = a + b;
    assert forall|i: int| 0 <= i < s.len() implies low <= place(#[trigger] s[i]) < high by {
        if i < a.len() {
            assert(s[i] == a[i]);
        } else {
            assert(s[i] == b[i - a.len()]);
        }
    }
    assert forall|i: int, j: int| 0 <= i < j < s.len() implies place(s[i]) < place(s[j]) by {
        if i < a.len() {
            assert(s[i] == a[i]);
        } else {
            assert(s[i] == b[i - a.len()]);
        }
        if j < a.len() {
            assert(s[j] == a[j]);
        } else {
            assert(s[j] == b[j - a.len()]);
        }
    }
}

/// The steps of a startup stand in one fixed order, whatever the
/// configuration leaves out, and no step is asked for twice.
pub proof fn lemma_plan_in_order(cmd: RunCmd)
    ensures
        in_order(cmd.spec_startup_plan(), 0, 24),
        cmd.spec_startup_plan().no_duplicates(),
{
    let w0 = optional(cmd.spec_probes(), Step::ProbeEndpoint);
    let w1 = seq![
        Step::RaiseFdLimit,
        Step::CreateDirectories,
        Step::LoadChainSpec,
        Step::LoadRestartState,
        Step::ResolveSettings,
        Step::RunUpgrades,
    ];
    let w2 = optional(cmd.daemon is Some, Step::Daemonize);
    let w3 = seq![
        Step::OpenCredentialStore,
        Step::Start(Subsystem::Storage),
        Step::ForwardFailures,
        Step::Start(Subsystem::Sync),
        Step::StartNetwork,
        Step::AssembleBundle,
    ];
    let w4 = optional(cmd.http_enabled, Step::Start(Subsystem::Transport(Transport::Http)));
    let w5 = optional(cmd.ipc_enabled, Step::Start(Subsystem::Transport(Transport::Ipc)));
    let w6 = optional(cmd.dapps_conf.enabled, Step::Start(Subsystem::Transport(Transport::Web)));
    let w7 = optional(cmd.signer_enabled, Step::Start(Subsystem::Transport(Transport::Signer)));
    let w8 = seq![Step::Start(Subsystem::Observers), Step::SaveRestartState, Step::InstallModeHook];
    let w9 = optional(!cmd.no_periodic_snapshot, Step::Start(Subsystem::Watcher));
    let w10 = optional(cmd.ui, Step::OpenEndpoint);
    let w11 = seq![Step::AwaitTermination];
    assert(in_order(w0, 0, 1));
    assert(in_order(w1, 1, 7));
    assert(in_order(w2, 7, 8));
    assert(in_order(w3, 8, 14));
    assert(in_order(w4, 14, 15));
    assert(in_order(w5, 15, 16));
    assert(in_order(w6, 16, 17));
    assert(in_order(w7, 17, 18));
    assert(in_order(w8, 18, 21));
    assert(in_order(w9, 21, 22));
    assert(in_order(w10, 22, 23));
    assert(in_order(w11, 23, 24));
    lemma_join(w0, w1, 0, 1, 7);
    lemma_join(w0 + w1, w2, 0, 7, 8);
    lemma_join(w0 + w1 + w2, w3, 0, 8, 14);
    lemma_join(w0 + w1 + w2 + w3, w4, 0, 14, 15);
    lemma_join(w0 + w1 + w2 + w3 + w4, w5, 0, 15, 16);
    lemma_join(w0 + w1 + w2 + w3 + w4 + w5, w6, 0, 16, 17);
    lemma_join(w0 + w1 + w2 + w3 + w4 + w5 + w6, w7, 0, 17, 18);
    lemma_join(w0 + w1 + w2 + w3 + w4 + w5 + w6 + w7, w8, 0, 18, 21);
    lemma_join(w0 + w1 + w2 + w3 + w4 + w5 + w6 + w7 + w8, w9, 0, 21, 22);
    lemma_join(w0 + w1 + w2 + w3 + w4 + w5 + w6 + w7 + w8 + w9, w10, 0, 22, 23);
    lemma_join(w0 + w1 + w2 + w3 + w4 + w5 + w6 + w7 + w8 + w9 + w10, w11, 0, 23, 24);
    let plan = cmd.spec_startup_plan();
    assert(plan == w0 + w1 + w2 + w3 + w4 + w5 + w6 + w7 + w8 + w9 + w10 + w11);
    assert forall|i: int, j: int| 0 <= i < plan.len() && 0 <= j < plan.len() && i != j implies plan[i]
        != plan[j] by {
        if i < j {
            assert(place(plan[i]) < place(plan[j]));
        } else {
            assert(place(plan[j]) < place(plan[i]));
        }
    }
}

/// The place in the plan at which the directories are created.
pub open spec fn directories_place(cmd: RunCmd) -> int {
    if cmd.spec_probes() {
        2
    } else {
        1
    }
}

/// Where the directories cannot be created, the run fails with the reason
/// given before any subsystem is started: after that step nothing is asked
/// for but to finish.
pub proof fn lemma_nothing_starts_without_directories(cmd: RunCmd, outcomes: Seq<Outcome>)
    requires
        outcome_at(outcomes, directories_place(cmd)).failed(),
        cmd.spec_probes() ==> !outcome_at(outcomes, 0).failed(),
    ensures
        trace(cmd.spec_startup_plan(), outcomes) == optional(
            cmd.spec_probes(),
            Step::ProbeEndpoint,
        ).map_values(|s: Step| Action::Perform(s)) + seq![
            Action::Perform(Step::RaiseFdLimit),
            Action::Perform(Step::CreateDirectories),
            Action::Finish,
        ],
        verdict(cmd.spec_startup_plan(), outcomes) == Some(
            outcome_at(outcomes, directories_place(cmd)).reason(),
        ),
{
    let plan = cmd.spec_startup_plan();
    let d = directories_place(cmd);
    reveal_with_fuel(network_at, 4);
    reveal_with_fuel(started_by, 4);
    assert(plan[d] == Step::CreateDirectories);
    assert(plan[d - 1] == Step::RaiseFdLimit);
    assert(presented(plan, outcomes, d) == Step::CreateDirectories);
    assert(presented(plan, outcomes, d - 1) == Step::RaiseFdLimit);
    if cmd.spec_probes() {
        assert(plan[0] == Step::ProbeEndpoint);
        assert(presented(plan, outcomes, 0) == Step::ProbeEndpoint);
    }
    assert(halts_at(plan, outcomes, d));
    lemma_failed_startup_is_unwound(plan, outcomes, d);
    assert(started_by(plan, d) =~= Seq::<Subsystem>::empty());
    assert(stops(started_by(plan, d).reverse()) =~= Seq::<Action>::empty());
    assert(trace(plan, outcomes) =~= optional(cmd.spec_probes(), Step::ProbeEndpoint).map_values(
        |s: Step| Action::Perform(s),
    ) + seq![
        Action::Perform(Step::RaiseFdLimit),
        Action::Perform(Step::CreateDirectories),
        Action::Finish,
    ]);
}

/// Where the browser interface is asked for and the web transport's
/// address is taken, another instance serves already: the run opens that
/// address once, starts nothing, and succeeds.
pub proof fn lemma_running_instance_is_opened(cmd: RunCmd, outcomes: Seq<Outcome>)
    requires
        cmd.spec_probes(),
        outcome_at(outcomes, 0).failed(),
    ensures
        trace(cmd.spec_startup_plan(), outcomes) == seq![
            Action::Perform(Step::ProbeEndpoint),
            Action::Perform(Step::OpenEndpoint),
            Action::Finish,
        ],
        verdict(cmd.spec_startup_plan(), outcomes) is None,
{
    let plan = cmd.spec_startup_plan();
    reveal_with_fuel(network_at, 2);
    reveal_with_fuel(started_by, 2);
    assert(plan[0] == Step::ProbeEndpoint);
    assert(presented(plan, outcomes, 0) == Step::ProbeEndpoint);
    assert(halts_at(plan, outcomes, 0));
    lemma_taken_address_is_opened(plan, outcomes, 0);
    assert(stops(started_by(plan, 0).reverse()) =~= Seq::<Action>::empty());
    assert(trace(plan, outcomes) =~= seq![
        Action::Perform(Step::ProbeEndpoint),
        Action::Perform(Step::OpenEndpoint),
        Action::Finish,
    ]);
}

/// `subsystem` where `wanted`, nothing otherwise.
pub open spec fn running(wanted: bool, subsystem: Subsystem) -> Seq<Subsystem> {
    if wanted {
        seq![subsystem]
    } else {
        Seq::empty()
    }
}

/// What runs once the startup that `cmd` asks for has gone through, in the
/// order in which it was started.
pub open spec fn started_in_full(cmd: RunCmd) -> Seq<Subsystem> {
    seq![Subsystem::Storage, Subsystem::Sync] + running(
        cmd.http_enabled,
        Subsystem::Transport(Transport::Http),
    ) + running(cmd.ipc_enabled, Subsystem::Transport(Transport::Ipc)) + running(
        cmd.dapps_conf.enabled,
        Subsystem::Transport(Transport::Web),
    ) + running(cmd.signer_enabled, Subsystem::Transport(Transport::Signer))
        + seq![Subsystem::Observers] + running(!cmd.no_periodic_snapshot, Subsystem::Watcher)
}

/// The stops of a node that ran in full, in the order in which they are
/// made: the transports, the one started last first; then the periodic
/// task and the observers; then synchronization; then storage.
pub open spec fn stopped_in_full(cmd: RunCmd) -> Seq<Subsystem> {
    running(cmd.signer_enabled, Subsystem::Transport(Transport::Signer)) + running(
        cmd.dapps_conf.enabled,
        Subsystem::Transport(Transport::Web),
    ) + running(cmd.ipc_enabled, Subsystem::Transport(Transport::Ipc)) + running(
        cmd.http_enabled,
        Subsystem::Transport(Transport::Http),
    ) + running(!cmd.no_periodic_snapshot, Subsystem::Watcher) + seq![
        Subsystem::Observers,
        Subsystem::Sync,
        Subsystem::Storage,
    ]
}

proof fn lemma_started_by_prefix(p: Seq<Step>, q: Seq<Step>, n: int)
    requires
        0 <= n <= p.len(),
        n <= q.len(),
        forall|i: int| 0 <= i < n ==> p[i] == q[i],
    ensures
        started_by(p, n) == started_by(q, n),
    decreases n,
{
    if n > 0 {
        lemma_started_by_prefix(p, q, n - 1);
    }
}

proof fn lemma_started_by_joined(a: Seq<Step>, b: Seq<Step>)
    ensures
        started_by(a + b, (a + b).len() as int) == started_by(a, a.len() as int) + started_by(
            b,
            b.len() as int,
        ),
    decreases b.len(),
{
    let n = (a + b).len() as int;
    if b.len() == 0 {
        assert(a + b =~= a);
        assert(started_by(b, 0) =~= Seq::<Subsystem>::empty());
        assert(started_by(a, a.len() as int) + started_by(b, 0) =~= started_by(a, a.len() as int));
    } else {
        let shorter = b.drop_last();
        lemma_started_by_joined(a, shorter);
        lemma_started_by_prefix(a + b, a + shorter, n - 1);
        lemma_started_by_prefix(b, shorter, b.len() - 1);
        assert((a + b)[n - 1] == b.last());
        match b.last().starts() {
            Some(s) => {
                assert(started_by(a + b, n) =~= started_by(a, a.len() as int) + started_by(
                    b,
                    b.len() as int,
                ));
            },
            None => {},
        }
    }
}

proof fn lemma_started_by_optional(wanted: bool, subsystem: Subsystem)
    ensures
        started_by(
            optional(wanted, Step::Start(subsystem)),
            optional(wanted, Step::Start(subsystem)).len() as int,
        ) == running(wanted, subsystem),
{
    reveal_with_fuel(started_by, 2);
    let piece = optional(wanted, Step::Start(subsystem));
    assert(started_by(piece, piece.len() as int) =~= running(wanted, subsystem));
}

proof fn lemma_started_by_none(wanted: bool, step: Step)
    requires
        step.starts() is None,
    ensures
        started_by(optional(wanted, step), optional(wanted, step).len() as int) == Seq::<
            Subsystem,
        >::empty(),
{
    reveal_with_fuel(started_by, 2);
}

/// A startup that goes through starts storage and synchronization, then
/// the transports that are on, then the observers and the periodic task.
pub proof fn lemma_started_in_full(cmd: RunCmd)
    ensures
        started_by(cmd.spec_startup_plan(), cmd.spec_startup_plan().len() as int)
            == started_in_full(cmd),
{
    let w0 = optional(cmd.spec_probes(), Step::ProbeEndpoint);
    let w1 = seq![
        Step::RaiseFdLimit,
        Step::CreateDirectories,
        Step::LoadChainSpec,
        Step::LoadRestartState,
        Step::ResolveSettings,
        Step::RunUpgrades,
    ];
    let w2 = optional(cmd.daemon is Some, Step::Daemonize);
    let w3 = seq![
        Step::OpenCredentialStore,
        Step::Start(Subsystem::Storage),
        Step::ForwardFailures,
        Step::Start(Subsystem::Sync),
        Step::StartNetwork,
        Step::AssembleBundle,
    ];
    let w4 = optional(cmd.http_enabled, Step::Start(Subsystem::Transport(Transport::Http)));
    let w5 = optional(cmd.ipc_enabled, Step::Start(Subsystem::Transport(Transport::Ipc)));
    let w6 = optional(cmd.dapps_conf.enabled, Step::Start(Subsystem::Transport(Transport::Web)));
    let w7 = optional(cmd.signer_enabled, Step::Start(Subsystem::Transport(Transport::Signer)));
    let w8 = seq![Step::Start(Subsystem::Observers), Step::SaveRestartState, Step::InstallModeHook];
    let w9 = optional(!cmd.no_periodic_snapshot, Step::Start(Subsystem::Watcher));
    let w10 = optional(cmd.ui, Step::OpenEndpoint);
    let w11 = seq![Step::AwaitTermination];
    let none = Seq::<Subsystem>::empty();
    lemma_started_by_none(cmd.spec_probes(), Step::ProbeEndpoint);
    assert(started_by(w1, w1.len() as int) =~= none) by {
        reveal_with_fuel(started_by, 7);
    }
    lemma_started_by_none(cmd.daemon is Some, Step::Daemonize);
    assert(started_by(w3, w3.len() as int) =~= seq![Subsystem::Storage, Subsystem::Sync]) by {
        reveal_with_fuel(started_by, 7);
    }
    lemma_started_by_optional(cmd.http_enabled, Subsystem::Transport(Transport::Http));
    lemma_started_by_optional(cmd.ipc_enabled, Subsystem::Transport(Transport::Ipc));
    lemma_started_by_optional(cmd.dapps_conf.enabled, Subsystem::Transport(Transport::Web));
    lemma_started_by_optional(cmd.signer_enabled, Subsystem::Transport(Transport::Signer));
    assert(started_by(w8, w8.len() as int) =~= seq![Subsystem::Observers]) by {
        reveal_with_fuel(started_by, 4);
    }
    lemma_started_by_optional(!cmd.no_periodic_snapshot, Subsystem::Watcher);
    lemma_started_by_none(cmd.ui, Step::OpenEndpoint);
    assert(started_by(w11, w11.len() as int) =~= none) by {
        reveal_with_fuel(started_by, 2);
    }
    lemma_started_by_joined(w0, w1);
    lemma_started_by_joined(w0 + w1, w2);
    lemma_started_by_joined(w0 + w1 + w2, w3);
    lemma_started_by_joined(w0 + w1 + w2 + w3, w4);
    lemma_started_by_joined(w0 + w1 + w2 + w3 + w4, w5);
    lemma_started_by_joined(w0 + w1 + w2 + w3 + w4 + w5, w6);
    lemma_started_by_joined(w0 + w1 + w2 + w3 + w4 + w5 + w6, w7);
    lemma_started_by_joined(w0 + w1 + w2 + w3 + w4 + w5 + w6 + w7, w8);
    lemma_started_by_joined(w0 + w1 + w2 + w3 + w4 + w5 + w6 + w7 + w8, w9);
    lemma_started_by_joined(w0 + w1 + w2 + w3 + w4 + w5 + w6 + w7 + w8 + w9, w10);
    lemma_started_by_joined(w0 + w1 + w2 + w3 + w4 + w5 + w6 + w7 + w8 + w9 + w10, w11);
    let plan = cmd.spec_startup_plan();
    assert(plan == w0 + w1 + w2 + w3 + w4 + w5 + w6 + w7 + w8 + w9 + w10 + w11);
    assert(started_by(plan, plan.len() as int) =~= started_in_full(cmd));
}

proof fn lemma_of_rank_short(s: Seq<Subsystem>, r: u8)
    requires
        s.len() <= 1,
    ensures
        of_rank(s, r) == (if s.len() == 1 && s[0].spec_rank() == r {
            s
        } else {
            Seq::empty()
        }),
{
    reveal_with_fuel(Seq::filter, 2);
    let keep = |x: Subsystem| x.spec_rank() == r;
    if s.len() == 1 {
        assert(s.drop_last() =~= Seq::<Subsystem>::empty());
        assert(s.drop_last().filter(keep) =~= Seq::<Subsystem>::empty());
        if s[0].spec_rank() == r {
            assert(s.filter(keep) =~= s);
        } else {
            assert(s.filter(keep) =~= Seq::<Subsystem>::empty());
        }
    } else {
        assert(s.filter(keep) =~= Seq::<Subsystem>::empty());
    }
}

proof fn lemma_of_rank_pieces(
    a: Seq<Subsystem>,
    b: Seq<Subsystem>,
    c: Seq<Subsystem>,
    d: Seq<Subsystem>,
    e: Seq<Subsystem>,
    f: Seq<Subsystem>,
    g: Seq<Subsystem>,
    h: Seq<Subsystem>,
    r: u8,
)
    ensures
        of_rank(a + b + c + d + e + f + g + h, r) == of_rank(a, r) + of_rank(b, r) + of_rank(c, r)
            + of_rank(d, r) + of_rank(e, r) + of_rank(f, r) + of_rank(g, r) + of_rank(h, r),
{
    let keep = |x: Subsystem| x.spec_rank() == r;
    Seq::filter_distributes_over_add(a, b, keep);
    Seq::filter_distributes_over_add(a + b, c, keep);
    Seq::filter_distributes_over_add(a + b + c, d, keep);
    Seq::filter_distributes_over_add(a + b + c + d, e, keep);
    Seq::filter_distributes_over_add(a + b + c + d + e, f, keep);
    Seq::filter_distributes_over_add(a + b + c + d + e + f, g, keep);
    Seq::filter_distributes_over_add(a + b + c + d + e + f + g, h, keep);
}

/// What ran in full, the part started last first.
spec fn started_last_first(cmd: RunCmd) -> Seq<Subsystem> {
    running(!cmd.no_periodic_snapshot, Subsystem::Watcher) + seq![Subsystem::Observers] + running(
        cmd.signer_enabled,
        Subsystem::Transport(Transport::Signer),
    ) + running(cmd.dapps_conf.enabled, Subsystem::Transport(Transport::Web)) + running(
        cmd.ipc_enabled,
        Subsystem::Transport(Transport::Ipc),
    ) + running(cmd.http_enabled, Subsystem::Transport(Transport::Http)) + seq![Subsystem::Sync]
        + seq![Subsystem::Storage]
}

proof fn lemma_started_last_first(cmd: RunCmd)
    ensures
        started_in_full(cmd).reverse() == started_last_first(cmd),
{
    let forth = started_in_full(cmd);
    let back = started_last_first(cmd);
    assert(forth.len() == back.len());
    assert forall|i: int| 0 <= i < back.len() implies forth.reverse()[i] == back[i] by {
        assert(forth.reverse()[i] == forth[forth.len() - 1 - i]);
    }
    assert(forth.reverse() =~= back);
}

proof fn lemma_rank_of_last_first(cmd: RunCmd, r: u8)
    requires
        0 <= r < 4,
    ensures
        of_rank(started_last_first(cmd), r) == (if r == 0 {
            running(cmd.signer_enabled, Subsystem::Transport(Transport::Signer)) + running(
                cmd.dapps_conf.enabled,
                Subsystem::Transport(Transport::Web),
            ) + running(cmd.ipc_enabled, Subsystem::Transport(Transport::Ipc)) + running(
                cmd.http_enabled,
                Subsystem::Transport(Transport::Http),
            )
        } else if r == 1 {
            running(!cmd.no_periodic_snapshot, Subsystem::Watcher) + seq![Subsystem::Observers]
        } else if r == 2 {
            seq![Subsystem::Sync]
        } else {
            seq![Subsystem::Storage]
        }),
{
    let a = running(!cmd.no_periodic_snapshot, Subsystem::Watcher);
    let b = seq![Subsystem::Observers];
    let c = running(cmd.signer_enabled, Subsystem::Transport(Transport::Signer));
    let d = running(cmd.dapps_conf.enabled, Subsystem::Transport(Transport::Web));
    let e = running(cmd.ipc_enabled, Subsystem::Transport(Transport::Ipc));
    let f = running(cmd.http_enabled, Subsystem::Transport(Transport::Http));
    let g = seq![Subsystem::Sync];
    let h = seq![Subsystem::Storage];
    let none = Seq::<Subsystem>::empty();
    lemma_of_rank_pieces(a, b, c, d, e, f, g, h, r);
    lemma_of_rank_short(a, r);
    lemma_of_rank_short(b, r);
    lemma_of_rank_short(c, r);
    lemma_of_rank_short(d, r);
    lemma_of_rank_short(e, r);
    lemma_of_rank_short(f, r);
    lemma_of_rank_short(g, r);
    lemma_of_rank_short(h, r);
    if r == 0 {
        assert(none + none + c + d + e + f + none + none =~= c + d + e + f);
    } else if r == 1 {
        assert(a + b + none + none + none + none + none + none =~= a + b);
    } else if r == 2 {
        assert(none + none + none + none + none + none + g + none =~= g);
    } else {
        assert(none + none + none + none + none + none + none + h =~= h);
    }
}

proof fn lemma_regrouped(
    a: Seq<Subsystem>,
    c: Seq<Subsystem>,
    d: Seq<Subsystem>,
    e: Seq<Subsystem>,
    f: Seq<Subsystem>,
)
    ensures
        (c + d + e + f) + (a + seq![Subsystem::Observers]) + seq![Subsystem::Sync]
            + seq![Subsystem::Storage] == c + d + e + f + a + seq![
            Subsystem::Observers,
            Subsystem::Sync,
            Subsystem::Storage,
        ],
{
    assert((c + d + e + f) + (a + seq![Subsystem::Observers]) + seq![Subsystem::Sync]
        + seq![Subsystem::Storage] =~= c + d + e + f + a + seq![
        Subsystem::Observers,
        Subsystem::Sync,
        Subsystem::Storage,
    ]);
}

/// A node that ran in full is drained in this order: the transports, the
/// one started last first; then the periodic task and the observers; then
/// synchronization; and storage last.
pub proof fn lemma_stopped_in_full(cmd: RunCmd)
    ensures
        spec_drain_order(started_in_full(cmd)) == stopped_in_full(cmd),
{
    let back = started_in_full(cmd).reverse();
    lemma_started_last_first(cmd);
    lemma_rank_of_last_first(cmd, 0);
    lemma_rank_of_last_first(cmd, 1);
    lemma_rank_of_last_first(cmd, 2);
    lemma_rank_of_last_first(cmd, 3);
    let a = running(!cmd.no_periodic_snapshot, Subsystem::Watcher);
    let c = running(cmd.signer_enabled, Subsystem::Transport(Transport::Signer));
    let d = running(cmd.dapps_conf.enabled, Subsystem::Transport(Transport::Web));
    let e = running(cmd.ipc_enabled, Subsystem::Transport(Transport::Ipc));
    let f = running(cmd.http_enabled, Subsystem::Transport(Transport::Http));
    lemma_regrouped(a, c, d, e, f);
    assert(of_rank(back, 0) == c + d + e + f);
    assert(of_rank(back, 1) == a + seq![Subsystem::Observers]);
    assert(of_rank(back, 2) == seq![Subsystem::Sync]);
    assert(of_rank(back, 3) == seq![Subsystem::Storage]);
}

/// A run in which no step fails for good performs every step of the plan,
/// refuses new work once termination is requested, stops the transports
/// first and storage last, and succeeds.
pub proof fn lemma_undisturbed_run(cmd: RunCmd, outcomes: Seq<Outcome>)
    requires
        forall|j: int|
            0 <= j < cmd.spec_startup_plan().len() ==> !halts_at(
                cmd.spec_startup_plan(),
                outcomes,
                j,
            ),
    ensures
        trace(cmd.spec_startup_plan(), outcomes) == (performed(
            cmd.spec_startup_plan(),
            outcomes,
            cmd.spec_startup_plan().len() as int,
        ).push(Action::RefuseNewWork) + stops(stopped_in_full(cmd))).push(Action::Finish),
        verdict(cmd.spec_startup_plan(), outcomes) is None,
{
    lemma_completed_run_drains(cmd.spec_startup_plan(), outcomes);
    lemma_started_in_full(cmd);
    lemma_stopped_in_full(cmd);
}

} // verus!
