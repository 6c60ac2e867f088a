//! The supervision of the compute node: what the launcher does next, given
//! where it stands and what just happened.
//!
//! The launcher starts the compute node, after making sure of the Ollama
//! server where it is needed, and then waits for four things at once: the
//! compute node to end, a request to stop, and two timers, one for updates of
//! the compute node and one for updates of the launcher itself. Nothing here
//! starts or stops a process: [`ComputeInstance::step`] takes what happened as
//! an [`Event`] and answers with the [`Action`] to perform, and whoever runs
//! the loop performs it and reports how it went.

use crate::error::LauncherError;
use crate::text::str_eq;
use crate::updates::{compute_update_required, launcher_update_required};
use vstd::prelude::*;

verus! {

/// The seconds between two looks for a newer compute node.
pub const COMPUTE_NODE_UPDATE_CHECK_INTERVAL_SECS: u64 = 3600;

/// The seconds between two looks for a newer launcher.
pub const LAUNCHER_UPDATE_CHECK_INTERVAL_SECS: u64 = 10800;

/// The name of the file that a newer launcher is downloaded to, beside the
/// compute node and never over the launcher that runs.
pub const LAUNCHER_DOWNLOAD_FILE: &'static str = ".tmp_launcher";

/// Where the supervision stands. Each phase but the first, `Idle` and the
/// last waits for the outcome of one action.
#[derive(Debug, Clone, Copy, PartialEq, Eq, Structural)]
pub enum Phase {
    /// Nothing was done yet.
    Created,
    /// Starting: the Ollama server is being made sure of.
    EnsuringOllama,
    /// Starting: the compute node is being started.
    SpawningCompute,
    /// Running: waiting for the compute node to end, a request to stop, or
    /// a timer.
    Idle,
    /// Running: the latest compute node is being looked up.
    CheckingCompute,
    /// Running: the compute node is being stopped to make room for a newer.
    StoppingCompute,
    /// Running: the newer compute node is being installed.
    InstallingCompute,
    /// Running: the newer compute node is being started.
    RelaunchingCompute,
    /// Running: the version of the newer compute node is being recorded.
    RecordingVersion,
    /// Running: the latest launcher is being looked up.
    CheckingLauncher,
    /// Running: the newer launcher is being downloaded beside the one that
    /// runs.
    DownloadingLauncher,
    /// Running: the file of the launcher that runs is being replaced.
    ReplacingLauncher,
    /// Running: the downloaded file is being removed.
    RemovingDownload,
    /// Terminating: the Ollama server that the launcher started is being
    /// stopped.
    KillingOllama,
    /// Terminating: the compute node is being stopped.
    KillingCompute,
    /// The end.
    Stopped,
}

/// One of the four stages that the phases belong to.
#[derive(Debug, Clone, Copy, PartialEq, Eq, Structural)]
pub enum Stage {
    Starting,
    Running,
    Terminating,
    Stopped,
}

impl Phase {
    /// The stage of a phase.
    pub open spec fn spec_stage(self) -> Stage {
        match self {
            Phase::Created | Phase::EnsuringOllama | Phase::SpawningCompute => Stage::Starting,
            Phase::KillingOllama | Phase::KillingCompute => Stage::Terminating,
            Phase::Stopped => Stage::Stopped,
            _ => Stage::Running,
        }
    }

    /// The stage of a phase.
    pub fn stage(&self) -> (stage: Stage)
        ensures
            stage == self.spec_stage(),
    {
        match self {
            Phase::Created | Phase::EnsuringOllama | Phase::SpawningCompute => Stage::Starting,
            Phase::KillingOllama | Phase::KillingCompute => Stage::Terminating,
            Phase::Stopped => Stage::Stopped,
            _ => Stage::Running,
        }
    }
}

/// Who started the Ollama server that answers.
#[derive(Debug, Clone, Copy, PartialEq, Eq, Structural)]
pub enum OwnershipTag {
    /// The launcher started it, and must stop it when it ends.
    Owned,
    /// It was there already, and the launcher must never stop it.
    External,
}

/// What happened.
#[derive(Debug, Clone)]
pub enum Event {
    /// The supervision is asked to begin.
    Begin,
    /// The Ollama server answers.
    OllamaEnsured(OwnershipTag),
    /// The action that was asked for last is done.
    Done,
    /// The action that was asked for last failed.
    Failed(LauncherError),
    /// The compute node ended.
    ComputeExited,
    /// The launcher was asked to stop.
    Cancelled,
    /// It is time to look for a newer compute node.
    ComputeUpdateTick,
    /// It is time to look for a newer launcher.
    LauncherUpdateTick,
    /// The latest compute node was looked up: the version recorded as
    /// installed, the latest version, and whether the file of the compute
    /// node is there.
    ComputeChecked { recorded: Option<String>, latest: String, compute_exists: bool },
    /// The latest launcher was looked up.
    LauncherChecked { latest: String },
}

/// An [`Event`] with its texts as sequences of characters.
pub enum EventView {
    Begin,
    OllamaEnsured(OwnershipTag),
    Done,
    Failed(LauncherError),
    ComputeExited,
    Cancelled,
    ComputeUpdateTick,
    LauncherUpdateTick,
    ComputeChecked { recorded: Option<Seq<char>>, latest: Seq<char>, compute_exists: bool },
    LauncherChecked { latest: Seq<char> },
}

impl View for Event {
    type V = EventView;

    open spec fn view(&self) -> EventView {
        match *self {
            Event::Begin => EventView::Begin,
            Event::OllamaEnsured(tag) => EventView::OllamaEnsured(tag),
            Event::Done => EventView::Done,
            Event::Failed(e) => EventView::Failed(e),
            Event::ComputeExited => EventView::ComputeExited,
            Event::Cancelled => EventView::Cancelled,
            Event::ComputeUpdateTick => EventView::ComputeUpdateTick,
            Event::LauncherUpdateTick => EventView::LauncherUpdateTick,
            Event::ComputeChecked { recorded, latest, compute_exists } => EventView::ComputeChecked {
                recorded: match recorded {
                    Some(version) => Some(version@),
                    None => None,
                },
                latest: latest@,
                compute_exists,
            },
            Event::LauncherChecked { latest } => EventView::LauncherChecked { latest: latest@ },
        }
    }
}

impl EventView {
    /// Whether the event reports how an action went.
    pub open spec fn is_outcome(self) -> bool {
        self is Done || self is Failed
    }
}

/// What to do next.
#[derive(Debug, Clone, PartialEq, Eq)]
pub enum Action {
    /// Wait for the compute node to end, a request to stop, or a timer; or,
    /// while an action is under way, for its outcome.
    Wait,
    /// Make sure that the Ollama server answers, starting it if it does not,
    /// and report [`Event::OllamaEnsured`] or [`Event::Failed`].
    EnsureOllama,
    /// Start the compute node.
    SpawnCompute,
    /// Look up the latest compute node and report [`Event::ComputeChecked`].
    CheckComputeUpdate,
    /// Stop the compute node.
    KillCompute,
    /// Install the compute node of the given version where the old one was.
    InstallCompute(String),
    /// Record the given version as the installed one.
    RecordVersion(String),
    /// Look up the latest launcher and report [`Event::LauncherChecked`].
    CheckLauncherUpdate,
    /// Download the launcher of the given version to a file of its own.
    DownloadLauncher(String),
    /// Replace the file of the launcher that runs by the downloaded one.
    ReplaceLauncher,
    /// Remove the downloaded file.
    RemoveDownload,
    /// Stop the Ollama server.
    KillOllama,
    /// Leave the loop.
    Exit,
}

/// An [`Action`] with its texts as sequences of characters.
pub enum ActionView {
    Wait,
    EnsureOllama,
    SpawnCompute,
    CheckComputeUpdate,
    KillCompute,
    InstallCompute(Seq<char>),
    RecordVersion(Seq<char>),
    CheckLauncherUpdate,
    DownloadLauncher(Seq<char>),
    ReplaceLauncher,
    RemoveDownload,
    KillOllama,
    Exit,
}

impl View for Action {
    type V = ActionView;

    open spec fn view(&self) -> ActionView {
        match *self {
            Action::Wait => ActionView::Wait,
            Action::EnsureOllama => ActionView::EnsureOllama,
            Action::SpawnCompute => ActionView::SpawnCompute,
            Action::CheckComputeUpdate => ActionView::CheckComputeUpdate,
            Action::KillCompute => ActionView::KillCompute,
            Action::InstallCompute(version) => ActionView::InstallCompute(version@),
            Action::RecordVersion(version) => ActionView::RecordVersion(version@),
            Action::CheckLauncherUpdate => ActionView::CheckLauncherUpdate,
            Action::DownloadLauncher(version) => ActionView::DownloadLauncher(version@),
            Action::ReplaceLauncher => ActionView::ReplaceLauncher,
            Action::RemoveDownload => ActionView::RemoveDownload,
            Action::KillOllama => ActionView::KillOllama,
            Action::Exit => ActionView::Exit,
        }
    }
}

/// What a [`ComputeInstance`] holds.
pub struct InstanceView {
    /// Where the supervision stands.
    pub phase: Phase,
    /// Whether newer versions are looked for at all.
    pub check_updates: bool,
    /// Whether the compute node needs the Ollama server.
    pub ollama_required: bool,
    /// Whether an Ollama server runs that the launcher started and has not
    /// yet been told to stop.
    pub ollama_owned: bool,
    /// Whether a compute node runs that the launcher started.
    pub compute_alive: bool,
    /// The version of the launcher that runs.
    pub launcher_version: Seq<char>,
    /// The version that was last found to be newer, of the compute node or
    /// of the launcher: the one that is being installed.
    pub target_version: Seq<char>,
    /// Why the start failed, if it did.
    pub failure: Option<LauncherError>,
}

impl InstanceView {
    /// The state after the way to the end is taken, with the first action on
    /// it: the Ollama server is stopped if the launcher started it, then the
    /// compute node if it runs, and then the loop is left.
    pub open spec fn terminate(self) -> (InstanceView, ActionView) {
        if self.ollama_owned {
            (
                InstanceView { phase: Phase::KillingOllama, ollama_owned: false, ..self },
                ActionView::KillOllama,
            )
        } else if self.compute_alive {
            (
                InstanceView { phase: Phase::KillingCompute, compute_alive: false, ..self },
                ActionView::KillCompute,
            )
        } else {
            (InstanceView { phase: Phase::Stopped, ..self }, ActionView::Exit)
        }
    }

    /// The state in `Idle`, waiting.
    pub open spec fn idle(self) -> (InstanceView, ActionView) {
        (InstanceView { phase: Phase::Idle, ..self }, ActionView::Wait)
    }

    /// The state after `event`, and the action to perform.
    pub open spec fn next(self, event: EventView) -> (InstanceView, ActionView) {
        match self.phase.spec_stage() {
            Stage::Stopped => (self, ActionView::Exit),
            Stage::Terminating => if event.is_outcome() {
                match self.phase {
                    Phase::KillingOllama => self.terminate(),
                    _ => (
                        InstanceView { phase: Phase::Stopped, ..self },
                        ActionView::Exit,
                    ),
                }
            } else {
                (self, ActionView::Wait)
            },
            Stage::Starting => match (self.phase, event) {
                (_, EventView::Cancelled) => self.terminate(),
                (Phase::Created, EventView::Begin) => if self.ollama_required {
                    (
                        InstanceView { phase: Phase::EnsuringOllama, ..self },
                        ActionView::EnsureOllama,
                    )
                } else {
                    (
                        InstanceView { phase: Phase::SpawningCompute, ..self },
                        ActionView::SpawnCompute,
                    )
                },
                (Phase::EnsuringOllama, EventView::OllamaEnsured(tag)) => (
                    InstanceView {
                        phase: Phase::SpawningCompute,
                        ollama_owned: tag == OwnershipTag::Owned,
                        ..self
                    },
                    ActionView::SpawnCompute,
                ),
                (Phase::SpawningCompute, EventView::Done) => (InstanceView {
                    compute_alive: true,
                    ..self
                }).idle(),
                (Phase::EnsuringOllama, EventView::Failed(e)) => (InstanceView {
                    failure: Some(e),
                    ..self
                }).terminate(),
                (Phase::SpawningCompute, EventView::Failed(e)) => (InstanceView {
                    failure: Some(e),
                    ..self
                }).terminate(),
                _ => (self, ActionView::Wait),
            },
            Stage::Running => match (self.phase, event) {
                (_, EventView::Cancelled) => self.terminate(),
                (_, EventView::ComputeExited) => if self.compute_alive {
                    (InstanceView { compute_alive: false, ..self }).terminate()
                } else {
                    (self, ActionView::Wait)
                },
                (Phase::Idle, EventView::ComputeUpdateTick) => if self.check_updates {
                    (
                        InstanceView { phase: Phase::CheckingCompute, ..self },
                        ActionView::CheckComputeUpdate,
                    )
                } else {
                    (self, ActionView::Wait)
                },
                (Phase::Idle, EventView::LauncherUpdateTick) => if self.check_updates {
                    (
                        InstanceView { phase: Phase::CheckingLauncher, ..self },
                        ActionView::CheckLauncherUpdate,
                    )
                } else {
                    (self, ActionView::Wait)
                },
                (
                    Phase::CheckingCompute,
                    EventView::ComputeChecked { recorded, latest, compute_exists },
                ) => if !compute_update_required(recorded, latest, compute_exists) {
                    self.idle()
                } else if self.compute_alive {
                    (
                        InstanceView {
                            phase: Phase::StoppingCompute,
                            target_version: latest,
                            ..self
                        },
                        ActionView::KillCompute,
                    )
                } else {
                    (
                        InstanceView {
                            phase: Phase::InstallingCompute,
                            target_version: latest,
                            ..self
                        },
                        ActionView::InstallCompute(latest),
                    )
                },
                (Phase::StoppingCompute, EventView::Done) => (
                    InstanceView {
                        phase: Phase::InstallingCompute,
                        compute_alive: false,
                        ..self
                    },
                    ActionView::InstallCompute(self.target_version),
                ),
                (Phase::InstallingCompute, EventView::Done) => (
                    InstanceView { phase: Phase::RelaunchingCompute, ..self },
                    ActionView::SpawnCompute,
                ),
                (Phase::RelaunchingCompute, EventView::Done) => (
                    InstanceView {
                        phase: Phase::RecordingVersion,
                        compute_alive: true,
                        ..self
                    },
                    ActionView::RecordVersion(self.target_version),
                ),
                (Phase::CheckingLauncher, EventView::LauncherChecked { latest }) => if launcher_update_required(
                    self.launcher_version,
                    latest,
                ) {
                    (
                        InstanceView {
                            phase: Phase::DownloadingLauncher,
                            target_version: latest,
                            ..self
                        },
                        ActionView::DownloadLauncher(latest),
                    )
                } else {
                    self.idle()
                },
                (Phase::DownloadingLauncher, EventView::Done) => (
                    InstanceView { phase: Phase::ReplacingLauncher, ..self },
                    ActionView::ReplaceLauncher,
                ),
                (Phase::ReplacingLauncher, EventView::Done) => (
                    InstanceView { phase: Phase::RemovingDownload, ..self },
                    ActionView::RemoveDownload,
                ),
                (Phase::Idle, _) => (self, ActionView::Wait),
                (_, EventView::Done) | (_, EventView::Failed(_)) => self.idle(),
                _ => (self, ActionView::Wait),
            },
        }
    }
}

/// The supervision of one compute node: where it stands, what runs, and
/// what it was set up with.
pub struct ComputeInstance {
    phase: Phase,
    check_updates: bool,
    ollama_required: bool,
    ollama_owned: bool,
    compute_alive: bool,
    launcher_version: String,
    target_version: String,
    failure: Option<LauncherError>,
}

impl View for ComputeInstance {
    type V = InstanceView;

    closed spec fn view(&self) -> InstanceView {
        InstanceView {
            phase: self.phase,
            check_updates: self.check_updates,
            ollama_required: self.ollama_required,
            ollama_owned: self.ollama_owned,
            compute_alive: self.compute_alive,
            launcher_version: self.launcher_version@,
            target_version: self.target_version@,
            failure: self.failure,
        }
    }
}

impl ComputeInstance {
    /// A supervision that has done nothing yet, for the launcher of the
    /// given version.
    pub fn new(launcher_version: String, check_updates: bool, ollama_required: bool) -> (instance:
        ComputeInstance)
        ensures
            instance@ == (InstanceView {
                phase: Phase::Created,
                check_updates,
                ollama_required,
                ollama_owned: false,
                compute_alive: false,
                launcher_version: launcher_version@,
                target_version: Seq::<char>::empty(),
                failure: None,
            }),
    {
        ComputeInstance {
            phase: Phase::Created,
            check_updates,
            ollama_required,
            ollama_owned: false,
            compute_alive: false,
            launcher_version,
            target_version: String::new(),
            failure: None,
        }
    }

    /// Where the supervision stands.
    pub fn phase(&self) -> (phase: Phase)
        ensures
            phase == self@.phase,
    {
        self.phase
    }

    /// Whether a compute node runs. While the supervision is running and
    /// this is false, an update has stopped the old compute node and has
    /// not yet started the newer one.
    pub fn has_live_compute(&self) -> (alive: bool)
        ensures
            alive == self@.compute_alive,
    {
        self.compute_alive
    }

    /// Whether an Ollama server runs that the launcher started and has not
    /// yet been told to stop.
    pub fn owns_ollama(&self) -> (owned: bool)
        ensures
            owned == self@.ollama_owned,
    {
        self.ollama_owned
    }

    /// Why the start failed, if it did.
    pub fn failure(&self) -> (failure: Option<LauncherError>)
        ensures
            failure == self@.failure,
    {
        self.failure
    }

    /// Takes the way to the end and gives the first action on it.
    fn terminate(&mut self) -> (action: Action)
        ensures
            (final(self)@, action@) == old(self)@.terminate(),
    {
        if self.ollama_owned {
            self.phase = Phase::KillingOllama;
            self.ollama_owned = false;
            Action::KillOllama
        } else if self.compute_alive {
            self.phase = Phase::KillingCompute;
            self.compute_alive = false;
            Action::KillCompute
        } else {
            self.phase = Phase::Stopped;
            Action::Exit
        }
    }

    /// Takes in what happened and gives the action to perform next.
    pub fn step(&mut self, event: Event) -> (action: Action)
        ensures
            (final(self)@, action@) == old(self)@.next(event@),
    {
        match self.phase.stage() {
            Stage::Stopped => Action::Exit,
            Stage::Terminating => match event {
                Event::Done | Event::Failed(_) => match self.phase {
                    Phase::KillingOllama => self.terminate(),
                    _ => {
                        self.phase = Phase::Stopped;
                        Action::Exit
                    },
                },
                _ => Action::Wait,
            },
            Stage::Starting => match event {
                Event::Cancelled => self.terminate(),
                Event::Begin => match self.phase {
                    Phase::Created => if self.ollama_required {
                        self.phase = Phase::EnsuringOllama;
                        Action::EnsureOllama
                    } else {
                        self.phase = Phase::SpawningCompute;
                        Action::SpawnCompute
                    },
                    _ => Action::Wait,
                },
                Event::OllamaEnsured(tag) => match self.phase {
                    Phase::EnsuringOllama => {
                        self.phase = Phase::SpawningCompute;
                        self.ollama_owned = match tag {
                            OwnershipTag::Owned => true,
                            OwnershipTag::External => false,
                        };
                        Action::SpawnCompute
                    },
                    _ => Action::Wait,
                },
                Event::Done => match self.phase {
                    Phase::SpawningCompute => {
                        self.compute_alive = true;
                        self.phase = Phase::Idle;
                        Action::Wait
                    },
                    _ => Action::Wait,
                },
                Event::Failed(e) => match self.phase {
                    Phase::EnsuringOllama | Phase::SpawningCompute => {
                        self.failure = Some(e);
                        self.terminate()
                    },
                    _ => Action::Wait,
                },
                _ => Action::Wait,
            },
            Stage::Running => match event {
                Event::Cancelled => self.terminate(),
                Event::ComputeExited => if self.compute_alive {
                    self.compute_alive = false;
                    self.terminate()
                } else {
                    Action::Wait
                },
                Event::ComputeUpdateTick => match self.phase {
                    Phase::Idle => if self.check_updates {
                        self.phase = Phase::CheckingCompute;
                        Action::CheckComputeUpdate
                    } else {
                        Action::Wait
                    },
                    _ => Action::Wait,
                },
                Event::LauncherUpdateTick => match self.phase {
                    Phase::Idle => if self.check_updates {
                        self.phase = Phase::CheckingLauncher;
                        Action::CheckLauncherUpdate
                    } else {
                        Action::Wait
                    },
                    _ => Action::Wait,
                },
                Event::ComputeChecked { recorded, latest, compute_exists } => match self.phase {
                    Phase::CheckingCompute => {
                        let is_latest = match &recorded {
                            Some(version) => str_eq(version.as_str(), latest.as_str()),
                            None => false,
                        };
                        if is_latest && compute_exists {
                            self.phase = Phase::Idle;
                            Action::Wait
                        } else if self.compute_alive {
                            self.phase = Phase::StoppingCompute;
                            self.target_version = latest;
                            Action::KillCompute
                        } else {
                            self.phase = Phase::InstallingCompute;
                            self.target_version = latest.clone();
                            Action::InstallCompute(latest)
                        }
                    },
                    _ => Action::Wait,
                },
                Event::LauncherChecked { latest } => match self.phase {
                    Phase::CheckingLauncher => if str_eq(
                        self.launcher_version.as_str(),
                        latest.as_str(),
                    ) {
                        self.phase = Phase::Idle;
                        Action::Wait
                    } else {
                        self.phase = Phase::DownloadingLauncher;
                        self.target_version = latest.clone();
                        Action::DownloadLauncher(latest)
                    },
                    _ => Action::Wait,
                },
                Event::Done => match self.phase {
                    Phase::Idle => Action::Wait,
                    Phase::StoppingCompute => {
                        self.phase = Phase::InstallingCompute;
                        self.compute_alive = false;
                        Action::InstallCompute(self.target_version.clone())
                    },
                    Phase::InstallingCompute => {
                        self.phase = Phase::RelaunchingCompute;
                        Action::SpawnCompute
                    },
                    Phase::RelaunchingCompute => {
                        self.phase = Phase::RecordingVersion;
                        self.compute_alive = true;
                        Action::RecordVersion(self.target_version.clone())
                    },
                    Phase::DownloadingLauncher => {
                        self.phase = Phase::ReplacingLauncher;
                        Action::ReplaceLauncher
                    },
                    Phase::ReplacingLauncher => {
                        self.phase = Phase::RemovingDownload;
                        Action::RemoveDownload
                    },
                    _ => {
                        self.phase = Phase::Idle;
                        Action::Wait
                    },
                },
                Event::Failed(_) => match self.phase {
                    Phase::Idle => Action::Wait,
                    _ => {
                        self.phase = Phase::Idle;
                        Action::Wait
                    },
                },
                _ => Action::Wait,
            },
        }
    }
}

} // verus!
