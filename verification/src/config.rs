//! The resolved configuration of one run, and the startup it asks for.

use vstd::prelude::*;
use vstd::string::*;
use crate::step::Step;
use crate::subsystem::{Subsystem, Transport};
use crate::text::{decimal, push_decimal};

verus! {

/// Where the web transport listens.
#[derive(Clone, Debug, PartialEq)]
pub struct WebConf {
    pub enabled: bool,
    pub interface: String,
    pub port: u16,
}

/// What a run is started with.
#[derive(Clone, Debug, PartialEq)]
pub struct RunCmd {
    /// The pid file, if the process is to detach from the terminal.
    pub daemon: Option<String>,
    pub http_enabled: bool,
    pub ipc_enabled: bool,
    pub network_id: Option<u64>,
    pub warp_sync: bool,
    pub geth_compatibility: bool,
    /// Where the signer's interface is reached, if it is on.
    pub ui_address: Option<(String, u16)>,
    pub dapps_conf: WebConf,
    pub signer_enabled: bool,
    /// Whether the browser interface is to be opened.
    pub ui: bool,
    pub custom_bootnodes: bool,
    pub no_periodic_snapshot: bool,
}

/// `step` where `wanted`, nothing otherwise.
pub open spec fn optional(wanted: bool, step: Step) -> Seq<Step> {
    if wanted {
        seq![step]
    } else {
        Seq::empty()
    }
}

fn push_optional(plan: &mut Vec<Step>, wanted: bool, step: Step)
    ensures
        final(plan)@ == old(plan)@ + optional(wanted, step),
{
    if wanted {
        plan.push(step);
    }
    assert(plan@ =~= old(plan)@ + optional(wanted, step));
}

impl WebConf {
    /// The address the transport binds: interface, colon, port.
    pub open spec fn spec_address(&self) -> Seq<char> {
        self.interface@ + seq![':'] + decimal(self.port as nat)
    }

    /// The address as a browser takes it.
    pub open spec fn spec_url(&self) -> Seq<char> {
        "http://"@ + self.spec_address() + seq!['/']
    }

    /// The address the transport binds.
    pub fn address(&self) -> (text: String)
        ensures
            text@ == self.spec_address(),
    {
        proof {
            reveal_strlit(":");
        }
        let mut text = self.interface.clone();
        text.append(":");
        push_decimal(&mut text, self.port as u64);
        assert(text@ =~= self.spec_address());
        text
    }

    /// The address as a browser takes it.
    pub fn url(&self) -> (text: String)
        ensures
            text@ == self.spec_url(),
    {
        proof {
            reveal_strlit("/");
        }
        let mut text = String::from_str("http://");
        let address = self.address();
        text.append(address.as_str());
        text.append("/");
        assert(text@ =~= self.spec_url());
        text
    }
}

impl RunCmd {
    /// The browser interface is asked for while the web transport is off.
    pub open spec fn spec_inconsistent(&self) -> bool {
        self.ui && !self.dapps_conf.enabled
    }

    /// Whether a running instance is looked for before anything starts.
    pub open spec fn spec_probes(&self) -> bool {
        self.ui && self.dapps_conf.enabled
    }

    /// What the caller is told of an inconsistent configuration.
    pub open spec fn inconsistency() -> Seq<char> {
        "Cannot use UI command with Dapps turned off."@
    }

    /// Refuses, before anything is started, a configuration that asks for
    /// the browser interface while the web transport is off.
    pub fn check(&self) -> (r: Result<(), String>)
        ensures
            r is Err <==> self.spec_inconsistent(),
            r is Err ==> r->Err_0@ == Self::inconsistency(),
    {
        if self.ui && !self.dapps_conf.enabled {
            Err(String::from_str("Cannot use UI command with Dapps turned off."))
        } else {
            Ok(())
        }
    }

    /// The steps of a startup that nothing interrupts, in order.
    pub open spec fn spec_startup_plan(&self) -> Seq<Step> {
        optional(self.spec_probes(), Step::ProbeEndpoint) + seq![
            Step::RaiseFdLimit,
            Step::CreateDirectories,
            Step::LoadChainSpec,
            Step::LoadRestartState,
            Step::ResolveSettings,
            Step::RunUpgrades,
        ] + optional(self.daemon is Some, Step::Daemonize) + seq![
            Step::OpenCredentialStore,
            Step::Start(Subsystem::Storage),
            Step::ForwardFailures,
            Step::Start(Subsystem::Sync),
            Step::StartNetwork,
            Step::AssembleBundle,
        ] + optional(self.http_enabled, Step::Start(Subsystem::Transport(Transport::Http)))
            + optional(self.ipc_enabled, Step::Start(Subsystem::Transport(Transport::Ipc)))
            + optional(self.dapps_conf.enabled, Step::Start(Subsystem::Transport(Transport::Web)))
            + optional(self.signer_enabled, Step::Start(Subsystem::Transport(Transport::Signer)))
            + seq![Step::Start(Subsystem::Observers), Step::SaveRestartState, Step::InstallModeHook]
            + optional(!self.no_periodic_snapshot, Step::Start(Subsystem::Watcher)) + optional(
            self.ui,
            Step::OpenEndpoint,
        ) + seq![Step::AwaitTermination]
    }

    /// The steps of a startup that nothing interrupts, in order.
    pub fn startup_plan(&self) -> (plan: Vec<Step>)
        ensures
            plan@ == self.spec_startup_plan(),
    {
        let mut plan: Vec<Step> = Vec::new();
        push_optional(&mut plan, self.ui && self.dapps_conf.enabled, Step::ProbeEndpoint);
        plan.push(Step::RaiseFdLimit);
        plan.push(Step::CreateDirectories);
        plan.push(Step::LoadChainSpec);
        plan.push(Step::LoadRestartState);
        plan.push(Step::ResolveSettings);
        plan.push(Step::RunUpgrades);
        let ghost first = plan@;
        assert(first =~= optional(self.spec_probes(), Step::ProbeEndpoint) + seq![
            Step::RaiseFdLimit,
            Step::CreateDirectories,
            Step::LoadChainSpec,
            Step::LoadRestartState,
            Step::ResolveSettings,
            Step::RunUpgrades,
        ]);
        push_optional(&mut plan, self.daemon.is_some(), Step::Daemonize);
        let ghost second = plan@;
        plan.push(Step::OpenCredentialStore);
        plan.push(Step::Start(Subsystem::Storage));
        plan.push(Step::ForwardFailures);
        plan.push(Step::Start(Subsystem::Sync));
        plan.push(Step::StartNetwork);
        plan.push(Step::AssembleBundle);
        let ghost third = plan@;
        assert(third =~= second + seq![
            Step::OpenCredentialStore,
            Step::Start(Subsystem::Storage),
            Step::ForwardFailures,
            Step::Start(Subsystem::Sync),
            Step::StartNetwork,
            Step::AssembleBundle,
        ]);
        push_optional(&mut plan, self.http_enabled, Step::Start(Subsystem::Transport(Transport::Http)));
        push_optional(&mut plan, self.ipc_enabled, Step::Start(Subsystem::Transport(Transport::Ipc)));
        push_optional(
            &mut plan,
            self.dapps_conf.enabled,
            Step::Start(Subsystem::Transport(Transport::Web)),
        );
        push_optional(
            &mut plan,
            self.signer_enabled,
            Step::Start(Subsystem::Transport(Transport::Signer)),
        );
        let ghost fourth = plan@;
        plan.push(Step::Start(Subsystem::Observers));
        plan.push(Step::SaveRestartState);
        plan.push(Step::InstallModeHook);
        let ghost fifth = plan@;
        assert(fifth =~= fourth + seq![
            Step::Start(Subsystem::Observers),
            Step::SaveRestartState,
            Step::InstallModeHook,
        ]);
        push_optional(&mut plan, !self.no_periodic_snapshot, Step::Start(Subsystem::Watcher));
        push_optional(&mut plan, self.ui, Step::OpenEndpoint);
        let ghost sixth = plan@;
        plan.push(Step::AwaitTermination);
        assert(plan@ =~= sixth + seq![Step::AwaitTermination]);
        plan
    }
}

} // verus!
