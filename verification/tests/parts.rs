use parity_run::accounts::{
    first_locked, keys_directory_error, no_password_error, prepare_account_provider, Account,
    UnlockStep, Unlocker,
};
use parity_run::bundle::{
    assemble, boot_nodes, sync_settings, ChainSpec, Handle, SyncOutputs,
};
use parity_run::config::{RunCmd, WebConf};
use parity_run::daemon::daemonize;
use parity_run::hub::FailureHub;
use parity_run::notify::{Delivery, NotifySet, Observer};
use parity_run::subsystem::{drain_order, unwind_order, Subsystem, Transport};
use parity_run::text::{joined, push_decimal};

fn cmd() -> RunCmd {
    RunCmd {
        daemon: None,
        http_enabled: true,
        ipc_enabled: false,
        network_id: None,
        warp_sync: true,
        geth_compatibility: true,
        ui_address: None,
        dapps_conf: WebConf { enabled: true, interface: "localhost".to_string(), port: 8545 },
        signer_enabled: false,
        ui: false,
        custom_bootnodes: false,
        no_periodic_snapshot: false,
    }
}

fn chain() -> ChainSpec {
    ChainSpec {
        network_id: 1,
        subprotocol_name: b"exp".to_vec(),
        fork_block: Some(1_920_000),
        nodes: vec!["enode://a@1.2.3.4:30303".to_string(), "enode://b@5.6.7.8:30303".to_string()],
    }
}

fn account(name: &str, fits: &[bool]) -> Account {
    Account { name: name.to_string(), fits: fits.to_vec() }
}

#[test]
fn decimal_of_numbers() {
    for (n, text) in [
        (0u64, "0"),
        (7, "7"),
        (10, "10"),
        (99, "99"),
        (100, "100"),
        (8080, "8080"),
        (65535, "65535"),
        (u64::MAX, "18446744073709551615"),
    ] {
        let mut out = "port ".to_string();
        push_decimal(&mut out, n);
        assert_eq!(out, format!("port {}", text));
    }
    assert_eq!(joined("ab", "cd"), "abcd");
    assert_eq!(joined("", ""), "");
}

#[test]
fn address_and_url_of_the_web_transport() {
    let web = WebConf { enabled: true, interface: "127.0.0.1".to_string(), port: 8080 };
    assert_eq!(web.address(), "127.0.0.1:8080");
    assert_eq!(web.url(), "http://127.0.0.1:8080/");
    let web = WebConf { enabled: false, interface: "node.local".to_string(), port: 0 };
    assert_eq!(web.address(), "node.local:0");
    assert_eq!(web.url(), "http://node.local:0/");
    let web = WebConf { enabled: true, interface: "::1".to_string(), port: 65535 };
    assert_eq!(web.url(), "http://::1:65535/");
}

#[test]
fn check_refuses_ui_without_web_transport() {
    let mut c = cmd();
    assert_eq!(c.check(), Ok(()));
    c.ui = true;
    assert_eq!(c.check(), Ok(()));
    c.dapps_conf.enabled = false;
    assert_eq!(c.check(), Err("Cannot use UI command with Dapps turned off.".to_string()));
    c.ui = false;
    assert_eq!(c.check(), Ok(()));
}

#[test]
fn daemonize_names_the_failure() {
    assert_eq!(daemonize(Ok(())), Ok(()));
    assert_eq!(
        daemonize(Err("unable to fork".to_string())),
        Err("Couldn't daemonize; unable to fork".to_string())
    );
    assert_eq!(daemonize(Err(String::new())), Err("Couldn't daemonize; ".to_string()));
}

#[test]
fn unwinding_reverses_the_start_order() {
    let started = vec![
        Subsystem::Storage,
        Subsystem::Sync,
        Subsystem::Transport(Transport::Http),
        Subsystem::Transport(Transport::Web),
    ];
    assert_eq!(
        unwind_order(&started),
        vec![
            Subsystem::Transport(Transport::Web),
            Subsystem::Transport(Transport::Http),
            Subsystem::Sync,
            Subsystem::Storage,
        ]
    );
    assert_eq!(unwind_order(&Vec::new()), Vec::new());
    assert_eq!(drain_order(&started), unwind_order(&started));
}

#[test]
fn draining_goes_by_rank() {
    let started = vec![
        Subsystem::Storage,
        Subsystem::Sync,
        Subsystem::Transport(Transport::Http),
        Subsystem::Transport(Transport::Signer),
        Subsystem::Observers,
        Subsystem::Watcher,
    ];
    assert_eq!(
        drain_order(&started),
        vec![
            Subsystem::Transport(Transport::Signer),
            Subsystem::Transport(Transport::Http),
            Subsystem::Watcher,
            Subsystem::Observers,
            Subsystem::Sync,
            Subsystem::Storage,
        ]
    );
    let scrambled = vec![
        Subsystem::Watcher,
        Subsystem::Transport(Transport::Ipc),
        Subsystem::Storage,
        Subsystem::Sync,
    ];
    assert_eq!(
        drain_order(&scrambled),
        vec![
            Subsystem::Transport(Transport::Ipc),
            Subsystem::Watcher,
            Subsystem::Sync,
            Subsystem::Storage,
        ]
    );
    assert_eq!(drain_order(&Vec::new()), Vec::new());
    assert_eq!(Subsystem::Transport(Transport::Web).rank(), 0);
    assert_eq!(Subsystem::Observers.rank(), 1);
    assert_eq!(Subsystem::Watcher.rank(), 1);
    assert_eq!(Subsystem::Sync.rank(), 2);
    assert_eq!(Subsystem::Storage.rank(), 3);
}

#[test]
fn hub_tells_every_listener() {
    let mut hub = FailureHub::new();
    assert!(hub.forward_failure(&"early".to_string()).is_empty());
    hub.register_failure_source(Subsystem::Storage);
    hub.on_failure(7);
    hub.on_failure(3);
    hub.register_failure_source(Subsystem::Transport(Transport::Http));
    hub.on_failure(7);
    let notices = hub.forward_failure(&"database corrupted".to_string());
    let listeners: Vec<u64> = notices.iter().map(|n| n.listener).collect();
    assert_eq!(listeners, vec![7, 3, 7]);
    for notice in notices.iter() {
        assert_eq!(notice.reason, "database corrupted");
    }
    assert!(hub.is_source(Subsystem::Storage));
    assert!(hub.is_source(Subsystem::Transport(Transport::Http)));
    assert!(!hub.is_source(Subsystem::Sync));
    assert_eq!(hub.forward_failure(&"again".to_string()).len(), 3);
}

#[test]
fn unlocker_tries_passwords_in_turn() {
    let mut walk = Unlocker::new(2, 3);
    assert_eq!(walk.current(), UnlockStep::Try { account: 0, password: 0 });
    walk.record(false);
    assert_eq!(walk.current(), UnlockStep::Try { account: 0, password: 1 });
    walk.record(true);
    assert_eq!(walk.current(), UnlockStep::Try { account: 1, password: 0 });
    walk.record(false);
    walk.record(false);
    assert_eq!(walk.current(), UnlockStep::Try { account: 1, password: 2 });
    walk.record(false);
    assert_eq!(walk.current(), UnlockStep::NoPassword { account: 1 });
    walk.record(true);
    assert_eq!(walk.current(), UnlockStep::NoPassword { account: 1 });
    let mut walk = Unlocker::new(1, 1);
    walk.record(true);
    assert_eq!(walk.current(), UnlockStep::Done);
    walk.record(false);
    assert_eq!(walk.current(), UnlockStep::Done);
    assert_eq!(Unlocker::new(0, 0).current(), UnlockStep::Done);
    assert_eq!(Unlocker::new(1, 0).current(), UnlockStep::NoPassword { account: 0 });
}

#[test]
fn accounts_are_unlocked_or_the_first_locked_one_is_named() {
    let table = vec![
        account("0x00a3", &[false, true, false]),
        account("0x00b4", &[false, false, true]),
    ];
    assert_eq!(first_locked(&table, 3), None);
    assert_eq!(prepare_account_provider(&table, 3), Ok(()));
    assert_eq!(first_locked(&table, 2), Some(1));
    assert_eq!(
        prepare_account_provider(&table, 2),
        Err("No password found to unlock account 0x00b4. Make sure valid password is present in files passed using `--password`.".to_string())
    );
    assert_eq!(first_locked(&table, 1), Some(0));
    assert_eq!(first_locked(&table, 0), Some(0));
    let short = vec![account("0x01", &[true]), account("0x02", &[]), account("0x03", &[false])];
    assert_eq!(first_locked(&short, 5), Some(1));
    assert_eq!(first_locked(&Vec::new(), 0), None);
    assert_eq!(prepare_account_provider(&Vec::new(), 0), Ok(()));
}

#[test]
fn messages_of_the_credential_store() {
    assert_eq!(
        no_password_error("0xdead"),
        "No password found to unlock account 0xdead. Make sure valid password is present in files passed using `--password`."
    );
    assert_eq!(
        keys_directory_error("permission denied"),
        "Could not open keys directory: permission denied"
    );
}

#[test]
fn bundle_is_built_from_what_was_started() {
    let sync = SyncOutputs { status: Handle(2), network: Handle(3), notify: Handle(4) };
    let bundle = assemble(Handle(1), sync, Handle(5), &cmd()).unwrap();
    assert_eq!(bundle.storage(), Handle(1));
    assert_eq!(bundle.sync_status(), Handle(2));
    assert_eq!(bundle.network(), Handle(3));
    assert_eq!(bundle.credentials(), Handle(5));
    assert!(bundle.geth_compatibility());
    assert_eq!(bundle.dapps_interface(), Some("localhost".to_string()));
    assert_eq!(bundle.dapps_port(), Some(8545));
    assert_eq!(bundle.ui_address(), None);
    let mut off = cmd();
    off.ui_address = Some(("127.0.0.1".to_string(), 8180));
    off.dapps_conf.enabled = false;
    off.geth_compatibility = false;
    let bundle = assemble(Handle(1), sync, Handle(5), &off).unwrap();
    assert_eq!(bundle.dapps_interface(), None);
    assert_eq!(bundle.dapps_port(), None);
    assert_eq!(bundle.ui_address(), Some(("127.0.0.1".to_string(), 8180)));
    assert!(!bundle.geth_compatibility());
}

#[test]
fn bundle_is_refused_for_ui_without_web_transport() {
    let sync = SyncOutputs { status: Handle(2), network: Handle(3), notify: Handle(4) };
    let mut c = cmd();
    c.ui = true;
    c.dapps_conf.enabled = false;
    assert_eq!(
        assemble(Handle(1), sync, Handle(5), &c).err(),
        Some("Cannot use UI command with Dapps turned off.".to_string())
    );
}

#[test]
fn sync_settings_follow_flags_and_chain() {
    let settings = sync_settings(&cmd(), &chain());
    assert_eq!(settings.network_id, 1);
    assert_eq!(settings.subprotocol_name, *b"exp");
    assert_eq!(settings.fork_block, Some(1_920_000));
    assert!(settings.warp_sync);
    let mut c = cmd();
    c.network_id = Some(42);
    c.warp_sync = false;
    let mut long = chain();
    long.subprotocol_name = b"morden".to_vec();
    long.fork_block = None;
    let settings = sync_settings(&c, &long);
    assert_eq!(settings.network_id, 42);
    assert_eq!(settings.subprotocol_name, *b"eth");
    assert_eq!(settings.fork_block, None);
    assert!(!settings.warp_sync);
    long.subprotocol_name = Vec::new();
    assert_eq!(sync_settings(&c, &long).subprotocol_name, *b"eth");
}

#[test]
fn boot_nodes_come_from_the_chain_unless_asked_for() {
    let asked = vec!["enode://c@9.9.9.9:30303".to_string()];
    assert_eq!(boot_nodes(&cmd(), asked.clone(), &chain()), chain().nodes);
    let mut c = cmd();
    c.custom_bootnodes = true;
    assert_eq!(boot_nodes(&c, asked.clone(), &chain()), asked);
    assert_eq!(boot_nodes(&c, Vec::new(), &chain()), Vec::<String>::new());
}

#[test]
fn observers_are_told_in_the_order_they_registered() {
    let mut set = NotifySet::new();
    assert_eq!(set.len(), 0);
    assert_eq!(set.deliver(1), Vec::new());
    set.add_notify(Observer::Sync);
    set.add_notify(Observer::Informant);
    assert_eq!(
        set.deliver(7),
        vec![
            Delivery { observer: Observer::Sync, event: 7 },
            Delivery { observer: Observer::Informant, event: 7 },
        ]
    );
    set.add_notify(Observer::Watcher);
    assert_eq!(set.len(), 3);
    assert_eq!(
        set.deliver(8),
        vec![
            Delivery { observer: Observer::Sync, event: 8 },
            Delivery { observer: Observer::Informant, event: 8 },
            Delivery { observer: Observer::Watcher, event: 8 },
        ]
    );
}
