//! The effects the orchestration logic asks its driver to perform. The
//! decision functions return sequences of these; the driver carries them out
//! in order. A small world model — does a container with the managed name
//! exist? — gives the cleanup laws their meaning.
use vstd::prelude::*;

use crate::events::WorkerJob;

verus! {

/// The durable half of the runtime's state machine, persisted to settings so
/// it survives a process restart.
#[derive(Debug, Clone, Copy, PartialEq, Eq, Structural)]
pub enum DownloadState {
    Idle,
    Preparing,
    Downloading,
    Validating,
    Running,
    Ready,
    Error,
}

impl DownloadState {
    /// The wire name of the state, as persisted in settings.
    pub fn name(&self) -> (r: &'static str)
        ensures
            r@ == self.name_spec(),
    {
        match self {
            DownloadState::Idle => "idle",
            DownloadState::Preparing => "preparing",
            DownloadState::Downloading => "downloading",
            DownloadState::Validating => "validating",
            DownloadState::Running => "running",
            DownloadState::Ready => "ready",
            DownloadState::Error => "error",
        }
    }

    pub open spec fn name_spec(&self) -> Seq<char> {
        match self {
            DownloadState::Idle => "idle"@,
            DownloadState::Preparing => "preparing"@,
            DownloadState::Downloading => "downloading"@,
            DownloadState::Validating => "validating"@,
            DownloadState::Running => "running"@,
            DownloadState::Ready => "ready"@,
            DownloadState::Error => "error"@,
        }
    }
}

/// One effect requested from the driver.
#[derive(Debug, Clone, PartialEq)]
pub enum Action {
    /// Write `download_state` and `last_error` to the persisted settings.
    PersistState { state: DownloadState, last_error: String },
    /// Stop and force-remove every container with the managed name.
    RemoveManagedContainers,
    /// Launch the service container for the configured variant.
    LaunchContainer,
    /// Attach to the container's log output.
    StartLogStream,
    /// Detach from the container's log output.
    StopLogStream,
    /// Start the health-monitor loop for the instance just started.
    StartMonitor,
    /// Run the startup sequence on a background thread.
    SpawnStartup,
    /// Spawn the provisioning worker process with the given job.
    SpawnWorker { job: WorkerJob },
    /// Kill the provisioning worker process.
    KillWorker,
    /// Forward a progress event to the user interface.
    EmitProgress { stage: String, message: String, percent: Option<u8>, detail: Option<String> },
    /// Forward one captured output line to the user interface.
    EmitRuntimeLog { stream: String, line: String },
    /// Write a worker-reported state patch to the persisted settings,
    /// verbatim: the state and error texts as the worker sent them, and the
    /// installed and enabled flags where it set them.
    PersistWorkerState {
        download_state: String,
        last_error: String,
        installed: Option<bool>,
        enabled: Option<bool>,
    },
    /// Record the cached container-running flag in the facade.
    SetRunningCache { value: bool },
}

/// Whether a container with the managed name exists after the driver has
/// carried out `acts`, starting from a world where one exists iff `w`.
pub open spec fn managed_after(acts: Seq<Action>, w: bool) -> bool
    decreases acts.len(),
{
    if acts.len() == 0 {
        w
    } else {
        let w2 = match acts[0] {
            Action::LaunchContainer => true,
            Action::RemoveManagedContainers => false,
            _ => w,
        };
        managed_after(acts.skip(1), w2)
    }
}

/// The last persisted state among `acts`, if any.
pub open spec fn last_persist(acts: Seq<Action>) -> Option<(DownloadState, Seq<char>)>
    decreases acts.len(),
{
    if acts.len() == 0 {
        None
    } else {
        match last_persist(acts.skip(1)) {
            Some(p) => Some(p),
            None => match acts[0] {
                Action::PersistState { state, last_error } => Some((state, last_error@)),
                _ => None,
            },
        }
    }
}

/// Appending actions folds the world left to right.
pub proof fn lemma_managed_after_concat(a: Seq<Action>, b: Seq<Action>, w: bool)
    ensures
        managed_after(a + b, w) == managed_after(b, managed_after(a, w)),
    decreases a.len(),
{
    if a.len() == 0 {
        assert(a + b =~= b);
    } else {
        assert((a + b).skip(1) =~= a.skip(1) + b);
        let w2 = match a[0] {
            Action::LaunchContainer => true,
            Action::RemoveManagedContainers => false,
            _ => w,
        };
        lemma_managed_after_concat(a.skip(1), b, w2);
    }
}

/// The last persisted state of a concatenation is the tail's, where the tail
/// persists anything.
pub proof fn lemma_last_persist_concat(a: Seq<Action>, b: Seq<Action>)
    ensures
        last_persist(a + b) == (match last_persist(b) {
            Some(p) => Some(p),
            None => last_persist(a),
        }),
    decreases a.len(),
{
    if a.len() == 0 {
        assert(a + b =~= b);
    } else {
        assert((a + b).skip(1) =~= a.skip(1) + b);
        lemma_last_persist_concat(a.skip(1), b);
    }
}

} // verus!
