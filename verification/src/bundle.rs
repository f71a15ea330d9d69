//! The dependencies that every transport is started with, and the settings
//! that the synchronization engine is started with.

use vstd::prelude::*;
use vstd::string::*;
use crate::config::RunCmd;

verus! {

/// Stands for a started subsystem, or a part of one, that is owned
/// elsewhere.
#[derive(Clone, Copy, Debug, PartialEq, Eq, Structural)]
pub struct Handle(pub u64);

/// What the synchronization engine hands out when it has started.
#[derive(Clone, Copy, Debug, PartialEq, Eq, Structural)]
pub struct SyncOutputs {
    /// Gives the state of the synchronization at a point in time.
    pub status: Handle,
    /// Controls the network.
    pub network: Handle,
    /// Takes the events of the storage engine.
    pub notify: Handle,
}

/// The bundle, as the contracts speak of it.
pub struct BundleView {
    pub storage: Handle,
    pub sync_status: Handle,
    pub network: Handle,
    pub credentials: Handle,
    pub geth_compatibility: bool,
    pub dapps_interface: Option<Seq<char>>,
    pub dapps_port: Option<u16>,
    pub ui_address: Option<(Seq<char>, u16)>,
}

/// What every transport is started with. It is built once in a run and
/// never changed after that: it can only be read.
#[derive(Clone, Debug)]
pub struct DependencyBundle {
    storage: Handle,
    sync_status: Handle,
    network: Handle,
    credentials: Handle,
    geth_compatibility: bool,
    dapps_interface: Option<String>,
    dapps_port: Option<u16>,
    ui_address: Option<(String, u16)>,
}

impl View for DependencyBundle {
    type V = BundleView;

    closed spec fn view(&self) -> BundleView {
        BundleView {
            storage: self.storage,
            sync_status: self.sync_status,
            network: self.network,
            credentials: self.credentials,
            geth_compatibility: self.geth_compatibility,
            dapps_interface: match self.dapps_interface {
                Some(text) => Some(text@),
                None => None,
            },
            dapps_port: self.dapps_port,
            ui_address: match self.ui_address {
                Some((host, port)) => Some((host@, port)),
                None => None,
            },
        }
    }
}

/// The bundle that `assemble` builds from its arguments.
pub open spec fn assembled(
    storage: Handle,
    sync: SyncOutputs,
    credentials: Handle,
    cmd: RunCmd,
) -> BundleView {
    BundleView {
        storage,
        sync_status: sync.status,
        network: sync.network,
        credentials,
        geth_compatibility: cmd.geth_compatibility,
        dapps_interface: if cmd.dapps_conf.enabled {
            Some(cmd.dapps_conf.interface@)
        } else {
            None
        },
        dapps_port: if cmd.dapps_conf.enabled {
            Some(cmd.dapps_conf.port)
        } else {
            None
        },
        ui_address: match cmd.ui_address {
            Some((host, port)) => Some((host@, port)),
            None => None,
        },
    }
}

/// Builds the bundle. Fails, and builds nothing, where the configuration
/// asks for the browser interface with the web transport off.
pub fn assemble(storage: Handle, sync: SyncOutputs, credentials: Handle, cmd: &RunCmd) -> (r: Result<
    DependencyBundle,
    String,
>)
    ensures
        r is Err <==> cmd.spec_inconsistent(),
        r is Err ==> r->Err_0@ == RunCmd::inconsistency(),
        r is Ok ==> r->Ok_0@ == assembled(storage, sync, credentials, *cmd),
{
    match cmd.check() {
        Err(text) => Err(text),
        Ok(()) => {
            let (dapps_interface, dapps_port) = if cmd.dapps_conf.enabled {
                (Some(cmd.dapps_conf.interface.clone()), Some(cmd.dapps_conf.port))
            } else {
                (None, None)
            };
            let ui_address = match &cmd.ui_address {
                Some((host, port)) => Some((host.clone(), *port)),
                None => None,
            };
            Ok(
                DependencyBundle {
                    storage,
                    sync_status: sync.status,
                    network: sync.network,
                    credentials,
                    geth_compatibility: cmd.geth_compatibility,
                    dapps_interface,
                    dapps_port,
                    ui_address,
                },
            )
        },
    }
}

impl DependencyBundle {
    /// The storage engine.
    pub fn storage(&self) -> (h: Handle)
        ensures
            h == self@.storage,
    {
        self.storage
    }

    /// What gives the state of the synchronization.
    pub fn sync_status(&self) -> (h: Handle)
        ensures
            h == self@.sync_status,
    {
        self.sync_status
    }

    /// What controls the network.
    pub fn network(&self) -> (h: Handle)
        ensures
            h == self@.network,
    {
        self.network
    }

    /// The credential store.
    pub fn credentials(&self) -> (h: Handle)
        ensures
            h == self@.credentials,
    {
        self.credentials
    }

    /// Whether the transports answer as the other client does.
    pub fn geth_compatibility(&self) -> (b: bool)
        ensures
            b == self@.geth_compatibility,
    {
        self.geth_compatibility
    }

    /// The interface of the web transport, where it is on.
    pub fn dapps_interface(&self) -> (text: Option<String>)
        ensures
            text is Some <==> self@.dapps_interface is Some,
            text is Some ==> text->Some_0@ == self@.dapps_interface->Some_0,
    {
        match &self.dapps_interface {
            Some(text) => Some(text.clone()),
            None => None,
        }
    }

    /// Where the signer's interface is reached, if it is on.
    pub fn ui_address(&self) -> (address: Option<(String, u16)>)
        ensures
            address is Some <==> self@.ui_address is Some,
            address is Some ==> address->Some_0.0@ == self@.ui_address->Some_0.0
                && address->Some_0.1 == self@.ui_address->Some_0.1,
    {
        match &self.ui_address {
            Some((host, port)) => Some((host.clone(), *port)),
            None => None,
        }
    }

    /// The port of the web transport, where it is on.
    pub fn dapps_port(&self) -> (port: Option<u16>)
        ensures
            port == self@.dapps_port,
    {
        self.dapps_port
    }
}

/// What the settings of the synchronization engine are taken from.
#[derive(Clone, Debug)]
pub struct ChainSpec {
    pub network_id: u64,
    /// The name of the subprotocol, as bytes.
    pub subprotocol_name: Vec<u8>,
    /// The number of the fork block, if the chain has one.
    pub fork_block: Option<u64>,
    /// The nodes to begin with.
    pub nodes: Vec<String>,
}

/// What the synchronization engine is started with.
#[derive(Clone, Copy, Debug, PartialEq, Eq)]
pub struct SyncSettings {
    pub network_id: u64,
    pub subprotocol_name: [u8; 3],
    pub fork_block: Option<u64>,
    pub warp_sync: bool,
}

/// The name of the subprotocol where the chain gives none of three bytes.
pub open spec fn usual_subprotocol() -> Seq<u8> {
    seq![101u8, 116u8, 104u8]
}

/// The name of the subprotocol that the engine is started with: the
/// chain's if it has three bytes, the usual one if not.
pub open spec fn subprotocol_for(chain: ChainSpec) -> Seq<u8> {
    if chain.subprotocol_name.len() == 3 {
        chain.subprotocol_name@
    } else {
        usual_subprotocol()
    }
}

/// The settings of the synchronization engine: the network as asked for on
/// the command line, else as the chain has it; the chain's subprotocol name
/// if it has three bytes, the usual one if not.
pub fn sync_settings(cmd: &RunCmd, chain: &ChainSpec) -> (settings: SyncSettings)
    ensures
        settings.network_id == (match cmd.network_id {
            Some(id) => id,
            None => chain.network_id,
        }),
        settings.subprotocol_name@ == subprotocol_for(*chain),
        settings.fork_block == chain.fork_block,
        settings.warp_sync == cmd.warp_sync,
{
    let network_id = match cmd.network_id {
        Some(id) => id,
        None => chain.network_id,
    };
    let subprotocol_name: [u8; 3] = if chain.subprotocol_name.len() == 3 {
        [chain.subprotocol_name[0], chain.subprotocol_name[1], chain.subprotocol_name[2]]
    } else {
        [101, 116, 104]
    };
    assert(subprotocol_name@ =~= subprotocol_for(*chain));
    SyncSettings {
        network_id,
        subprotocol_name,
        fork_block: chain.fork_block,
        warp_sync: cmd.warp_sync,
    }
}

/// The nodes to begin with: those asked for on the command line where
/// there are any, else the chain's.
pub fn boot_nodes(cmd: &RunCmd, asked: Vec<String>, chain: &ChainSpec) -> (nodes: Vec<String>)
    ensures
        cmd.custom_bootnodes ==> nodes@ == asked@,
        !cmd.custom_bootnodes ==> nodes@ == chain.nodes@,
{
    if cmd.custom_bootnodes {
        asked
    } else {
        let mut nodes: Vec<String> = Vec::new();
        let mut i: usize = 0;
        while i < chain.nodes.len()
            invariant
                i <= chain.nodes.len(),
                nodes@ == chain.nodes@.take(i as int),
            decreases chain.nodes.len() - i,
        {
            nodes.push(chain.nodes[i].clone());
            assert(nodes@ =~= chain.nodes@.take(i + 1));
            i = i + 1;
        }
        assert(chain.nodes@.take(chain.nodes.len() as int) =~= chain.nodes@);
        nodes
    }
}

} // verus!
