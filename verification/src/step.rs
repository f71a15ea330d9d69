//! What the orchestrator asks of its surroundings, one action at a time, and
//! what it is told in return.

use vstd::prelude::*;
use crate::subsystem::Subsystem;

verus! {

/// How actively the node takes part in the network.
#[derive(Clone, Copy, Debug, PartialEq, Eq, Structural)]
pub enum Mode {
    /// Always on.
    Active,
    /// Sleeps after a time without requests (seconds), wakes at an interval
    /// (seconds).
    Passive(u64, u64),
    /// Sleeps after a time without requests (seconds) and stays off the
    /// network.
    Dark(u64),
    /// Does nothing on its own.
    Off,
}

impl Mode {
    /// Whether a node in this mode joins the network at startup.
    pub open spec fn spec_network_enabled(self) -> bool {
        !(self is Dark) && !(self is Off)
    }

    #[verifier::when_used_as_spec(spec_network_enabled)]
    pub fn network_enabled(self) -> (on: bool)
        ensures
            on == self.spec_network_enabled(),
    {
        match self {
            Mode::Dark(_) => false,
            Mode::Off => false,
            _ => true,
        }
    }
}

/// One step of a startup, performed outside this library.
#[derive(Clone, Copy, Debug, PartialEq, Eq, Structural)]
pub enum Step {
    /// Try to bind the web transport's address, and release it again.
    ProbeEndpoint,
    /// Open the web transport's address in a browser.
    OpenEndpoint,
    /// Raise the limit on open files.
    RaiseFdLimit,
    /// Create the directories the node writes to.
    CreateDirectories,
    /// Load the chain specification.
    LoadChainSpec,
    /// Load the record kept from earlier runs.
    LoadRestartState,
    /// Settle pruning, tracing, fat index and mode from flags and record.
    ResolveSettings,
    /// Bring the database to the current layout.
    RunUpgrades,
    /// Detach from the terminal.
    Daemonize,
    /// Open the credential store and unlock the requested accounts.
    OpenCredentialStore,
    /// Start a subsystem.
    Start(Subsystem),
    /// Have the failures of the storage engine forwarded to the failure hub.
    ForwardFailures,
    /// Let the synchronization engine join the network.
    StartNetwork,
    /// Leave the synchronization engine off the network.
    StayOffline,
    /// Build the bundle of dependencies shared by the transports.
    AssembleBundle,
    /// Write the record for later runs.
    SaveRestartState,
    /// Have every later change of mode written to the record.
    InstallModeHook,
    /// Park until termination is requested.
    AwaitTermination,
}

impl Step {
    /// Whether a failure of this step is put up with: the run goes on as if
    /// the step had succeeded.
    pub open spec fn spec_best_effort(self) -> bool {
        self == Step::RaiseFdLimit || self == Step::LoadRestartState
            || self == Step::SaveRestartState || self == Step::OpenEndpoint
            || self == Step::StayOffline || self == Step::AwaitTermination
    }

    #[verifier::when_used_as_spec(spec_best_effort)]
    pub fn best_effort(self) -> (b: bool)
        ensures
            b == self.spec_best_effort(),
    {
        match self {
            Step::RaiseFdLimit => true,
            Step::LoadRestartState => true,
            Step::SaveRestartState => true,
            Step::OpenEndpoint => true,
            Step::StayOffline => true,
            Step::AwaitTermination => true,
            _ => false,
        }
    }

    /// The subsystem that runs once this step has succeeded, if any.
    pub open spec fn spec_starts(self) -> Option<Subsystem> {
        match self {
            Step::Start(s) => Some(s),
            _ => None,
        }
    }

    #[verifier::when_used_as_spec(spec_starts)]
    pub fn starts(self) -> (s: Option<Subsystem>)
        ensures
            s == self.spec_starts(),
    {
        match self {
            Step::Start(s) => Some(s),
            _ => None,
        }
    }
}

/// What the orchestrator asks for next.
#[derive(Clone, Copy, Debug, PartialEq, Eq, Structural)]
pub enum Action {
    /// Perform a step of the startup and report how it went.
    Perform(Step),
    /// Mark the node as taking no new scheduled work.
    RefuseNewWork,
    /// Stop a subsystem; a failure to stop is logged and nothing more.
    Stop(Subsystem),
    /// Nothing is left to do: hand the result to the caller.
    Finish,
}

/// How an action went.
#[derive(Clone, Debug)]
pub enum Outcome {
    /// It was done.
    Completed,
    /// It could not be done, for the reason given.
    Failed(String),
    /// The settings were settled, with this mode. In answer to any other
    /// action it says no more than `Completed`.
    Resolved(Mode),
}

impl Outcome {
    /// Whether the action failed.
    pub open spec fn spec_failed(&self) -> bool {
        self is Failed
    }

    #[verifier::when_used_as_spec(spec_failed)]
    pub fn failed(&self) -> (b: bool)
        ensures
            b == self.spec_failed(),
    {
        match self {
            Outcome::Failed(_) => true,
            _ => false,
        }
    }

    /// The reason given with a failure; empty for any other outcome.
    pub open spec fn reason(&self) -> Seq<char> {
        match self {
            Outcome::Failed(text) => text@,
            _ => Seq::empty(),
        }
    }
}

} // verus!
