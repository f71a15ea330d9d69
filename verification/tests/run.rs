use parity_run::config::{RunCmd, WebConf};
use parity_run::sequencer::{Phase, Sequencer};
use parity_run::step::{Action, Mode, Outcome, Step};
use parity_run::subsystem::{Subsystem, Transport};
use parity_run::trace::{execute, run_plan};

fn plain() -> RunCmd {
    RunCmd {
        daemon: None,
        http_enabled: true,
        ipc_enabled: true,
        network_id: None,
        warp_sync: false,
        geth_compatibility: false,
        ui_address: None,
        dapps_conf: WebConf { enabled: true, interface: "127.0.0.1".to_string(), port: 8080 },
        signer_enabled: true,
        ui: false,
        custom_bootnodes: false,
        no_periodic_snapshot: false,
    }
}

fn failed(reason: &str) -> Outcome {
    Outcome::Failed(reason.to_string())
}

fn answers(count: usize, at: usize, outcome: Outcome) -> Vec<Outcome> {
    let mut all = vec![Outcome::Completed; count];
    all[at] = outcome;
    all
}

fn perform(steps: &[Step]) -> Vec<Action> {
    steps.iter().map(|s| Action::Perform(*s)).collect()
}

#[test]
fn plan_of_a_plain_run() {
    assert_eq!(
        plain().startup_plan(),
        vec![
            Step::RaiseFdLimit,
            Step::CreateDirectories,
            Step::LoadChainSpec,
            Step::LoadRestartState,
            Step::ResolveSettings,
            Step::RunUpgrades,
            Step::OpenCredentialStore,
            Step::Start(Subsystem::Storage),
            Step::ForwardFailures,
            Step::Start(Subsystem::Sync),
            Step::StartNetwork,
            Step::AssembleBundle,
            Step::Start(Subsystem::Transport(Transport::Http)),
            Step::Start(Subsystem::Transport(Transport::Ipc)),
            Step::Start(Subsystem::Transport(Transport::Web)),
            Step::Start(Subsystem::Transport(Transport::Signer)),
            Step::Start(Subsystem::Observers),
            Step::SaveRestartState,
            Step::InstallModeHook,
            Step::Start(Subsystem::Watcher),
            Step::AwaitTermination,
        ]
    );
}

#[test]
fn plan_follows_the_switches() {
    let mut cmd = plain();
    cmd.ui = true;
    cmd.daemon = Some("/run/node.pid".to_string());
    cmd.http_enabled = false;
    cmd.signer_enabled = false;
    cmd.no_periodic_snapshot = true;
    assert_eq!(
        cmd.startup_plan(),
        vec![
            Step::ProbeEndpoint,
            Step::RaiseFdLimit,
            Step::CreateDirectories,
            Step::LoadChainSpec,
            Step::LoadRestartState,
            Step::ResolveSettings,
            Step::RunUpgrades,
            Step::Daemonize,
            Step::OpenCredentialStore,
            Step::Start(Subsystem::Storage),
            Step::ForwardFailures,
            Step::Start(Subsystem::Sync),
            Step::StartNetwork,
            Step::AssembleBundle,
            Step::Start(Subsystem::Transport(Transport::Ipc)),
            Step::Start(Subsystem::Transport(Transport::Web)),
            Step::Start(Subsystem::Observers),
            Step::SaveRestartState,
            Step::InstallModeHook,
            Step::OpenEndpoint,
            Step::AwaitTermination,
        ]
    );
}

#[test]
fn plan_never_repeats_a_step() {
    for bits in 0..256u32 {
        let mut cmd = plain();
        cmd.ui = bits & 1 != 0;
        cmd.dapps_conf.enabled = bits & 2 != 0;
        cmd.http_enabled = bits & 4 != 0;
        cmd.ipc_enabled = bits & 8 != 0;
        cmd.signer_enabled = bits & 16 != 0;
        cmd.no_periodic_snapshot = bits & 32 != 0;
        cmd.daemon = if bits & 64 != 0 { Some("pid".to_string()) } else { None };
        cmd.custom_bootnodes = bits & 128 != 0;
        let plan = cmd.startup_plan();
        for i in 0..plan.len() {
            for j in 0..i {
                assert_ne!(plan[i], plan[j]);
            }
        }
        let directories = plan.iter().position(|s| *s == Step::CreateDirectories).unwrap();
        for (i, step) in plan.iter().enumerate() {
            if step.starts().is_some() {
                assert!(directories < i);
            }
        }
        assert_eq!(*plan.last().unwrap(), Step::AwaitTermination);
    }
}

#[test]
fn run_fails_before_any_start_when_directories_cannot_be_created() {
    let report = execute(&plain(), &vec![Outcome::Completed, failed("permission denied")]);
    assert_eq!(
        report.actions,
        vec![
            Action::Perform(Step::RaiseFdLimit),
            Action::Perform(Step::CreateDirectories),
            Action::Finish,
        ]
    );
    assert_eq!(report.result, Err("permission denied".to_string()));
}

#[test]
fn run_with_probe_fails_before_any_start_when_directories_cannot_be_created() {
    let mut cmd = plain();
    cmd.ui = true;
    let report = execute(&cmd, &answers(3, 2, failed("read-only file system")));
    assert_eq!(
        report.actions,
        vec![
            Action::Perform(Step::ProbeEndpoint),
            Action::Perform(Step::RaiseFdLimit),
            Action::Perform(Step::CreateDirectories),
            Action::Finish,
        ]
    );
    assert_eq!(report.result, Err("read-only file system".to_string()));
    for action in report.actions.iter() {
        match action {
            Action::Perform(Step::Start(_)) | Action::Stop(_) => panic!("a subsystem was touched"),
            _ => {},
        }
    }
}

#[test]
fn failure_at_each_step_stops_what_was_started_in_reverse() {
    let plan = plain().startup_plan();
    for k in 0..plan.len() {
        if plan[k].best_effort() {
            continue;
        }
        let report = execute(&plain(), &answers(plan.len(), k, failed("broken")));
        let mut expected = perform(&plan[..=k]);
        let mut started: Vec<Subsystem> = plan[..k].iter().filter_map(|s| s.starts()).collect();
        started.reverse();
        expected.extend(started.iter().map(|s| Action::Stop(*s)));
        expected.push(Action::Finish);
        assert_eq!(report.actions, expected, "failure at step {}", k);
        assert!(report.result.is_err());
        let stops: Vec<&Action> =
            report.actions.iter().filter(|a| matches!(a, Action::Stop(_))).collect();
        for i in 0..stops.len() {
            for j in 0..i {
                assert_ne!(stops[i], stops[j]);
            }
        }
    }
}

#[test]
fn failure_of_the_third_of_three_subsystems() {
    let plan = vec![
        Step::Start(Subsystem::Storage),
        Step::Start(Subsystem::Sync),
        Step::Start(Subsystem::Transport(Transport::Http)),
    ];
    let report = run_plan(plan, &answers(3, 2, failed("address in use")));
    assert_eq!(
        report.actions,
        vec![
            Action::Perform(Step::Start(Subsystem::Storage)),
            Action::Perform(Step::Start(Subsystem::Sync)),
            Action::Perform(Step::Start(Subsystem::Transport(Transport::Http))),
            Action::Stop(Subsystem::Sync),
            Action::Stop(Subsystem::Storage),
            Action::Finish,
        ]
    );
    assert_eq!(report.result, Err("address in use".to_string()));
}

#[test]
fn failure_of_the_first_subsystem_stops_nothing() {
    let plan = vec![Step::Start(Subsystem::Storage), Step::Start(Subsystem::Sync)];
    let report = run_plan(plan, &vec![failed("disk full")]);
    assert_eq!(
        report.actions,
        vec![Action::Perform(Step::Start(Subsystem::Storage)), Action::Finish]
    );
    assert_eq!(report.result, Err("Client service error: disk full".to_string()));
}

#[test]
fn failure_of_the_synchronization_engine_is_named() {
    let plan = vec![Step::Start(Subsystem::Storage), Step::Start(Subsystem::Sync)];
    let report = run_plan(plan, &answers(2, 1, failed("no peers")));
    assert_eq!(
        report.actions,
        vec![
            Action::Perform(Step::Start(Subsystem::Storage)),
            Action::Perform(Step::Start(Subsystem::Sync)),
            Action::Stop(Subsystem::Storage),
            Action::Finish,
        ]
    );
    assert_eq!(report.result, Err("Sync error: no peers".to_string()));
}

#[test]
fn ui_without_web_transport_fails_and_starts_nothing() {
    let mut cmd = plain();
    cmd.ui = true;
    cmd.dapps_conf.enabled = false;
    let report = execute(&cmd, &Vec::new());
    assert_eq!(report.actions, vec![Action::Finish]);
    assert_eq!(report.result, Err("Cannot use UI command with Dapps turned off.".to_string()));
    let seq = Sequencer::new(&cmd);
    assert_eq!(seq.phase(), Phase::Finished);
    assert_eq!(seq.current(), Action::Finish);
    assert_eq!(
        seq.result(),
        Some(Err("Cannot use UI command with Dapps turned off.".to_string()))
    );
}

#[test]
fn occupied_address_opens_the_running_instance() {
    let mut cmd = plain();
    cmd.ui = true;
    let report = execute(&cmd, &vec![failed("address already in use")]);
    assert_eq!(
        report.actions,
        vec![
            Action::Perform(Step::ProbeEndpoint),
            Action::Perform(Step::OpenEndpoint),
            Action::Finish,
        ]
    );
    assert_eq!(report.result, Ok(()));
    let opened =
        report.actions.iter().filter(|a| **a == Action::Perform(Step::OpenEndpoint)).count();
    assert_eq!(opened, 1);
}

#[test]
fn undisturbed_run_drains_transports_first_and_storage_last() {
    let plan = plain().startup_plan();
    let report = execute(&plain(), &Vec::new());
    let mut expected = perform(&plan);
    expected.extend(vec![
        Action::RefuseNewWork,
        Action::Stop(Subsystem::Transport(Transport::Signer)),
        Action::Stop(Subsystem::Transport(Transport::Web)),
        Action::Stop(Subsystem::Transport(Transport::Ipc)),
        Action::Stop(Subsystem::Transport(Transport::Http)),
        Action::Stop(Subsystem::Watcher),
        Action::Stop(Subsystem::Observers),
        Action::Stop(Subsystem::Sync),
        Action::Stop(Subsystem::Storage),
        Action::Finish,
    ]);
    assert_eq!(report.actions, expected);
    assert_eq!(report.result, Ok(()));
}

#[test]
fn new_work_is_refused_before_anything_is_stopped() {
    let report = execute(&plain(), &Vec::new());
    let refuse = report.actions.iter().position(|a| *a == Action::RefuseNewWork).unwrap();
    let first_stop = report.actions.iter().position(|a| matches!(a, Action::Stop(_))).unwrap();
    assert!(refuse < first_stop);
    assert_eq!(report.actions.iter().filter(|a| **a == Action::RefuseNewWork).count(), 1);
}

#[test]
fn termination_by_failure_drains_like_termination_by_signal() {
    let plan = plain().startup_plan();
    let by_signal = execute(&plain(), &Vec::new());
    let by_failure =
        execute(&plain(), &answers(plan.len(), plan.len() - 1, failed("storage died")));
    assert_eq!(by_signal.actions, by_failure.actions);
    assert_eq!(by_failure.result, Ok(()));
}

#[test]
fn a_dark_node_stays_offline() {
    let plan = plain().startup_plan();
    let resolve = plan.iter().position(|s| *s == Step::ResolveSettings).unwrap();
    let network = plan.iter().position(|s| *s == Step::StartNetwork).unwrap();
    for (mode, step) in [
        (Mode::Active, Step::StartNetwork),
        (Mode::Passive(300, 3600), Step::StartNetwork),
        (Mode::Dark(300), Step::StayOffline),
        (Mode::Off, Step::StayOffline),
    ] {
        let report = execute(&plain(), &answers(plan.len(), resolve, Outcome::Resolved(mode)));
        assert_eq!(report.actions[network], Action::Perform(step));
        assert_eq!(report.result, Ok(()));
        assert_eq!(mode.network_enabled(), step == Step::StartNetwork);
    }
}

#[test]
fn failures_that_are_put_up_with_do_not_end_the_run() {
    let plan = plain().startup_plan();
    let undisturbed = execute(&plain(), &Vec::new());
    for k in 0..plan.len() {
        if plan[k].best_effort() {
            let report = execute(&plain(), &answers(plan.len(), k, failed("ignored")));
            assert_eq!(report.actions, undisturbed.actions);
            assert_eq!(report.result, Ok(()));
        }
    }
    assert!(Step::SaveRestartState.best_effort());
    assert!(Step::LoadRestartState.best_effort());
    assert!(!Step::CreateDirectories.best_effort());
    assert!(!Step::Start(Subsystem::Storage).best_effort());
}

#[test]
fn failed_stops_do_not_hold_up_the_teardown() {
    let plan = plain().startup_plan();
    let undisturbed = execute(&plain(), &Vec::new());
    let outcomes = vec![failed("stuck"); undisturbed.actions.len()];
    let mut outcomes = outcomes;
    for k in 0..plan.len() {
        outcomes[k] = Outcome::Completed;
    }
    let report = execute(&plain(), &outcomes);
    assert_eq!(report.actions, undisturbed.actions);
    assert_eq!(report.result, Ok(()));
}

#[test]
fn sequencer_asks_for_one_action_at_a_time() {
    let mut seq = Sequencer::with_plan(vec![
        Step::CreateDirectories,
        Step::Start(Subsystem::Storage),
        Step::Start(Subsystem::Transport(Transport::Ipc)),
    ]);
    assert_eq!(seq.phase(), Phase::Starting);
    assert_eq!(seq.result(), None);
    assert_eq!(seq.current(), Action::Perform(Step::CreateDirectories));
    assert_eq!(seq.current(), Action::Perform(Step::CreateDirectories));
    seq.advance(&Outcome::Completed);
    assert_eq!(seq.current(), Action::Perform(Step::Start(Subsystem::Storage)));
    seq.advance(&Outcome::Completed);
    assert_eq!(seq.current(), Action::Perform(Step::Start(Subsystem::Transport(Transport::Ipc))));
    seq.advance(&Outcome::Completed);
    assert_eq!(seq.phase(), Phase::Refusing);
    assert_eq!(seq.current(), Action::RefuseNewWork);
    seq.advance(&Outcome::Completed);
    assert_eq!(seq.phase(), Phase::Draining);
    assert_eq!(seq.current(), Action::Stop(Subsystem::Transport(Transport::Ipc)));
    seq.advance(&failed("socket stuck"));
    assert_eq!(seq.current(), Action::Stop(Subsystem::Storage));
    assert_eq!(seq.result(), None);
    seq.advance(&Outcome::Completed);
    assert_eq!(seq.phase(), Phase::Finished);
    assert_eq!(seq.current(), Action::Finish);
    assert_eq!(seq.result(), Some(Ok(())));
    seq.advance(&failed("late"));
    assert_eq!(seq.current(), Action::Finish);
    assert_eq!(seq.result(), Some(Ok(())));
}

#[test]
fn sequencer_unwinds_after_a_failure() {
    let mut seq = Sequencer::with_plan(vec![
        Step::Start(Subsystem::Storage),
        Step::Start(Subsystem::Sync),
        Step::AssembleBundle,
        Step::AwaitTermination,
    ]);
    seq.advance(&Outcome::Completed);
    seq.advance(&Outcome::Completed);
    seq.advance(&failed("inconsistent"));
    assert_eq!(seq.phase(), Phase::Unwinding);
    assert_eq!(seq.current(), Action::Stop(Subsystem::Sync));
    seq.advance(&Outcome::Completed);
    assert_eq!(seq.current(), Action::Stop(Subsystem::Storage));
    seq.advance(&Outcome::Completed);
    assert_eq!(seq.current(), Action::Finish);
    assert_eq!(seq.result(), Some(Err("inconsistent".to_string())));
}

#[test]
fn empty_plan_finishes_at_once() {
    let report = run_plan(Vec::new(), &Vec::new());
    assert_eq!(report.actions, vec![Action::RefuseNewWork, Action::Finish]);
    assert_eq!(report.result, Ok(()));
}
