//! The runtime status facade: the one object the rest of the application
//! talks to. Its methods are pure decisions over the in-memory bookkeeping —
//! which worker, startup attempt or container is believed active — returning
//! the effects the driver must perform. No method blocks on the container
//! engine: `running` is a cached flag refreshed by the health monitor.
use vstd::prelude::*;

use vstd::string::StringExecFns;

use crate::actions::{
    lemma_managed_after_concat, last_persist, managed_after, Action, DownloadState,
};
use crate::events::WorkerJob;
use crate::settings::SenseVoiceSettings;

verus! {

/// Why a runtime operation failed.
#[derive(Debug, Clone, PartialEq)]
pub enum SenseVoiceError {
    Config(String),
    Request(String),
    Parse(String),
    Process(String),
    Io(String),
    Url(String),
    Settings(String),
}

impl SenseVoiceError {
    /// The human-readable message, prefixed as the surrounding application
    /// displays it.
    pub fn message(&self) -> (r: String)
        ensures
            r@ == self.message_spec(),
    {
        let (prefix, detail): (&str, &String) = match self {
            SenseVoiceError::Config(d) => ("SenseVoice 配置错误: ", d),
            SenseVoiceError::Request(d) => ("SenseVoice 请求失败: ", d),
            SenseVoiceError::Parse(d) => ("SenseVoice 响应解析失败: ", d),
            SenseVoiceError::Process(d) => ("SenseVoice 进程执行失败: ", d),
            SenseVoiceError::Io(d) => ("SenseVoice 文件读写失败: ", d),
            SenseVoiceError::Url(d) => ("SenseVoice URL 错误: ", d),
            SenseVoiceError::Settings(d) => ("SenseVoice 设置读写失败: ", d),
        };
        let mut out = String::from_str(prefix);
        out.append(detail.as_str());
        out
    }

    pub open spec fn message_spec(&self) -> Seq<char> {
        match self {
            SenseVoiceError::Config(d) => "SenseVoice 配置错误: "@ + d@,
            SenseVoiceError::Request(d) => "SenseVoice 请求失败: "@ + d@,
            SenseVoiceError::Parse(d) => "SenseVoice 响应解析失败: "@ + d@,
            SenseVoiceError::Process(d) => "SenseVoice 进程执行失败: "@ + d@,
            SenseVoiceError::Io(d) => "SenseVoice 文件读写失败: "@ + d@,
            SenseVoiceError::Url(d) => "SenseVoice URL 错误: "@ + d@,
            SenseVoiceError::Settings(d) => "SenseVoice 设置读写失败: "@ + d@,
        }
    }
}

/// The status surfaced to the user interface.
#[derive(Debug, Clone, PartialEq)]
pub struct SenseVoiceStatus {
    pub installed: bool,
    pub enabled: bool,
    pub running: bool,
    pub local_model: String,
    pub service_url: String,
    pub model_id: String,
    pub device: String,
    pub download_state: String,
    pub last_error: String,
}

/// Whether a status reports exactly the given settings with the given
/// derived `running` flag.
pub open spec fn status_matches(r: SenseVoiceStatus, s: SenseVoiceSettings, running: bool) -> bool {
    &&& r.installed == s.installed
    &&& r.enabled == s.enabled
    &&& r.running == running
    &&& r.local_model@ == s.local_model@
    &&& r.service_url@ == s.service_url@
    &&& r.model_id@ == s.model_id@
    &&& r.device@ == s.device@
    &&& r.download_state@ == s.download_state@
    &&& r.last_error@ == s.last_error@
}

/// The in-memory orchestration bookkeeping, guarded by one lock in the
/// application shell. Process and thread handles live with the driver; here
/// each is a flag saying whether one is believed alive.
#[derive(Debug, Clone, PartialEq)]
pub struct SenseVoiceManager {
    pub container_name: Option<String>,
    pub log_stream_active: bool,
    pub prepare_active: bool,
    pub start_in_progress: bool,
    pub start_cancel_flag: bool,
    pub container_running_cache: bool,
}

/// The reported `running` flag: the cached container state or an in-flight
/// startup, never a synchronous engine call.
pub open spec fn running_view(m: SenseVoiceManager) -> bool {
    m.container_running_cache || m.start_in_progress
}

impl SenseVoiceManager {
    pub fn new() -> (r: Self)
        ensures
            r.container_name is None,
            !r.log_stream_active,
            !r.prepare_active,
            !r.start_in_progress,
            !r.start_cancel_flag,
            !r.container_running_cache,
    {
        SenseVoiceManager {
            container_name: None,
            log_stream_active: false,
            prepare_active: false,
            start_in_progress: false,
            start_cancel_flag: false,
            container_running_cache: false,
        }
    }

    /// Drops the bookkeeping for a provisioning worker that has exited.
    pub fn reconcile_prepare_task(&mut self, worker_exited: bool)
        ensures
            final(self).prepare_active == (old(self).prepare_active && !worker_exited),
            *final(self) == (SenseVoiceManager {
                prepare_active: final(self).prepare_active,
                ..*old(self)
            }),
    {
        if worker_exited {
            self.prepare_active = false;
        }
    }

    /// Whether a provisioning job is believed active after reconciling.
    pub fn is_prepare_running(&mut self, worker_exited: bool) -> (r: bool)
        ensures
            r == (old(self).prepare_active && !worker_exited),
            *final(self) == (SenseVoiceManager { prepare_active: r, ..*old(self) }),
    {
        self.reconcile_prepare_task(worker_exited);
        self.prepare_active
    }

    /// The cached running flag, read without any engine call.
    pub fn is_running_cached(&self) -> (r: bool)
        ensures
            r == self.container_running_cache,
    {
        self.container_running_cache
    }

    /// The current status: the persisted settings plus the derived `running`
    /// flag. Never blocks on the container engine.
    pub fn status(&mut self, worker_exited: bool, sensevoice: &SenseVoiceSettings) -> (r:
        SenseVoiceStatus)
        ensures
            status_matches(r, *sensevoice, running_view(*final(self))),
            *final(self) == (SenseVoiceManager {
                prepare_active: old(self).prepare_active && !worker_exited,
                ..*old(self)
            }),
    {
        self.reconcile_prepare_task(worker_exited);
        SenseVoiceStatus {
            installed: sensevoice.installed,
            enabled: sensevoice.enabled,
            running: self.container_running_cache || self.start_in_progress,
            local_model: sensevoice.local_model.clone(),
            service_url: sensevoice.service_url.clone(),
            model_id: sensevoice.model_id.clone(),
            device: sensevoice.device.clone(),
            download_state: sensevoice.download_state.clone(),
            last_error: sensevoice.last_error.clone(),
        }
    }

    /// Whether any runtime is to be treated as live: an in-flight startup
    /// counts, otherwise the probe result decides and refreshes the cache.
    pub fn has_running_runtime(&mut self, worker_exited: bool, engine_running: bool) -> (r: bool)
        ensures
            r == (old(self).start_in_progress || engine_running),
            old(self).start_in_progress ==> *final(self) == (SenseVoiceManager {
                prepare_active: old(self).prepare_active && !worker_exited,
                ..*old(self)
            }),
            !old(self).start_in_progress ==> *final(self) == (SenseVoiceManager {
                prepare_active: old(self).prepare_active && !worker_exited,
                container_running_cache: engine_running,
                ..*old(self)
            }),
    {
        self.reconcile_prepare_task(worker_exited);
        if self.start_in_progress {
            return true;
        }
        self.container_running_cache = engine_running;
        engine_running
    }

    /// Starts the service in the background: a no-op while an instance is
    /// already running or a startup is in flight (idempotent), an error while
    /// a provisioning job is active or the runtime is not installed.
    pub fn start_service_async(
        &mut self,
        worker_exited: bool,
        sensevoice: &SenseVoiceSettings,
    ) -> (r: (Vec<Action>, Result<SenseVoiceStatus, SenseVoiceError>))
        ensures
            ({
                let prepare_now = old(self).prepare_active && !worker_exited;
                &&& prepare_now ==> r.0@ =~= Seq::<Action>::empty() && r.1 is Err
                    && r.1->Err_0 is Process && *final(self) == (SenseVoiceManager {
                    prepare_active: true,
                    ..*old(self)
                })
                &&& !prepare_now && old(self).container_running_cache ==> r.0@ =~= Seq::<
                    Action,
                >::empty() && r.1 is Ok && status_matches(r.1->Ok_0, *sensevoice, true)
                    && *final(self) == (SenseVoiceManager {
                    prepare_active: false,
                    start_in_progress: false,
                    start_cancel_flag: false,
                    ..*old(self)
                })
                &&& !prepare_now && !old(self).container_running_cache && old(
                    self,
                ).start_in_progress ==> r.0@ =~= Seq::<Action>::empty() && r.1 is Ok
                    && status_matches(r.1->Ok_0, *sensevoice, true) && *final(self)
                    == (SenseVoiceManager { prepare_active: false, ..*old(self) })
                &&& !prepare_now && !old(self).container_running_cache && !old(
                    self,
                ).start_in_progress && !sensevoice.installed ==> r.0@ =~= Seq::<Action>::empty()
                    && r.1 is Err && r.1->Err_0 is Config && *final(self) == (SenseVoiceManager {
                    prepare_active: false,
                    ..*old(self)
                })
                &&& !prepare_now && !old(self).container_running_cache && !old(
                    self,
                ).start_in_progress && sensevoice.installed ==> r.0@ =~= seq![
                    Action::SpawnStartup,
                ] && r.1 is Ok && status_matches(r.1->Ok_0, *sensevoice, true) && *final(self)
                    == (SenseVoiceManager {
                    prepare_active: false,
                    start_in_progress: true,
                    start_cancel_flag: false,
                    ..*old(self)
                })
            }),
    {
        self.reconcile_prepare_task(worker_exited);
        let no_acts: Vec<Action> = Vec::new();
        if self.prepare_active {
            return (
                no_acts,
                Err(SenseVoiceError::Process(String::from_str("下载任务正在后台执行，请稍后再试"))),
            );
        }
        if self.container_running_cache {
            self.start_in_progress = false;
            self.start_cancel_flag = false;
            return (no_acts, Ok(self.status(false, sensevoice)));
        }
        if self.start_in_progress {
            return (no_acts, Ok(self.status(false, sensevoice)));
        }
        if !sensevoice.installed {
            return (
                no_acts,
                Err(SenseVoiceError::Config(String::from_str("SenseVoice 尚未安装，请先完成下载"))),
            );
        }
        self.start_in_progress = true;
        self.start_cancel_flag = false;
        let mut acts: Vec<Action> = Vec::new();
        acts.push(Action::SpawnStartup);
        let st = self.status(false, sensevoice);
        (acts, Ok(st))
    }

    /// Prepares the runtime in the background: a no-op while a provisioning
    /// job is already active, otherwise persists `preparing` and spawns the
    /// worker with the job built from the current settings.
    pub fn prepare_async(
        &mut self,
        worker_exited: bool,
        sensevoice: &SenseVoiceSettings,
        job: WorkerJob,
    ) -> (r: (Vec<Action>, SenseVoiceStatus))
        ensures
            ({
                let prepare_now = old(self).prepare_active && !worker_exited;
                &&& prepare_now ==> r.0@ =~= Seq::<Action>::empty() && *final(self)
                    == (SenseVoiceManager { prepare_active: true, ..*old(self) }) && status_matches(
                    r.1,
                    *sensevoice,
                    running_view(*final(self)),
                )
                &&& !prepare_now ==> r.0@.len() == 3 && (r.0@[0] matches Action::EmitProgress {
                    stage,
                    ..
                } && stage@ == "prepare"@) && (r.0@[1] matches Action::PersistState {
                    state,
                    last_error,
                } && state == DownloadState::Preparing && last_error@ == ""@) && (r.0@[2]
                    matches Action::SpawnWorker { job: j } && j == job) && *final(self)
                    == (SenseVoiceManager { prepare_active: true, ..*old(self) }) && status_matches(
                    r.1,
                    *sensevoice,
                    running_view(*final(self)),
                )
            }),
    {
        self.reconcile_prepare_task(worker_exited);
        if self.prepare_active {
            let st = self.status(false, sensevoice);
            let no_acts: Vec<Action> = Vec::new();
            return (no_acts, st);
        }
        proof {
            reveal_strlit("");
        }
        let mut acts: Vec<Action> = Vec::new();
        acts.push(
            Action::EmitProgress {
                stage: String::from_str("prepare"),
                message: String::from_str("Preparing runtime"),
                percent: Some(5),
                detail: None,
            },
        );
        acts.push(
            Action::PersistState { state: DownloadState::Preparing, last_error: String::new() },
        );
        acts.push(Action::SpawnWorker { job });
        self.prepare_active = true;
        let st = self.status(false, sensevoice);
        (acts, st)
    }

    /// Stops everything, always safely: kills any worker, cancels any
    /// in-flight startup, detaches the log stream, removes the managed
    /// containers, and resets the persisted state to idle.
    pub fn stop_service(&mut self) -> (acts: Vec<Action>)
        ensures
            is_stop_actions(acts@),
            *final(self) == stopped_manager(*old(self)),
    {
        self.prepare_active = false;
        self.start_cancel_flag = true;
        self.start_in_progress = false;
        self.container_running_cache = false;
        self.log_stream_active = false;
        self.container_name = None;
        proof {
            reveal_strlit("");
        }
        let mut acts: Vec<Action> = Vec::new();
        acts.push(Action::KillWorker);
        acts.push(Action::StopLogStream);
        acts.push(Action::RemoveManagedContainers);
        acts.push(Action::PersistState { state: DownloadState::Idle, last_error: String::new() });
        acts.push(
            Action::EmitProgress {
                stage: String::from_str("stopped"),
                message: String::from_str("SenseVoice service stopped"),
                percent: None,
                detail: None,
            },
        );
        proof {
            assert(acts@.len() == 5);
            assert(acts@[0] == Action::KillWorker);
            assert(acts@[1] == Action::StopLogStream);
            assert(acts@[2] == Action::RemoveManagedContainers);
            assert(acts@[3] matches Action::PersistState { state, last_error } && state
                == DownloadState::Idle && last_error@ == ""@);
            assert(acts@[4] matches Action::EmitProgress { stage, .. } && stage@ == "stopped"@);
        }
        acts
    }
}

/// The bookkeeping after a stop: everything inactive, cancellation raised.
pub open spec fn stopped_manager(m: SenseVoiceManager) -> SenseVoiceManager {
    SenseVoiceManager {
        container_name: None,
        log_stream_active: false,
        prepare_active: false,
        start_in_progress: false,
        start_cancel_flag: true,
        container_running_cache: false,
    }
}

/// The effects of one stop, in order: kill the worker, detach the logs,
/// remove the containers, persist idle, tell the user interface.
pub open spec fn is_stop_actions(acts: Seq<Action>) -> bool {
    &&& acts.len() == 5
    &&& acts[0] == Action::KillWorker
    &&& acts[1] == Action::StopLogStream
    &&& acts[2] == Action::RemoveManagedContainers
    &&& acts[3] matches Action::PersistState { state, last_error } && state == DownloadState::Idle
        && last_error@ == ""@
    &&& acts[4] matches Action::EmitProgress { stage, .. } && stage@ == "stopped"@
}

/// After one stop no container with the managed name exists, whatever the
/// world looked like, and the state persisted last is idle with no error.
pub proof fn lemma_stop_clean(acts: Seq<Action>, w: bool)
    requires
        is_stop_actions(acts),
    ensures
        !managed_after(acts, w),
        last_persist(acts) matches Some((st, msg)) && st == DownloadState::Idle && msg == ""@,
{
    assert(acts.skip(1).skip(1) =~= acts.skip(2));
    assert(acts.skip(2).skip(1) =~= acts.skip(3));
    assert(acts.skip(3).skip(1) =~= acts.skip(4));
    assert(acts.skip(4).skip(1) =~= acts.skip(5));
    assert(acts.skip(5).len() == 0);
    assert(acts.skip(1)[0] == acts[1]);
    assert(acts.skip(2)[0] == acts[2]);
    assert(acts.skip(3)[0] == acts[3]);
    assert(acts.skip(4)[0] == acts[4]);
    assert(!managed_after(acts.skip(5), false));
    assert(!managed_after(acts.skip(4), false));
    assert(!managed_after(acts.skip(3), false));
    assert(!managed_after(acts.skip(2), w));
    assert(!managed_after(acts.skip(1), w));
    assert(!managed_after(acts, w));
    assert(last_persist(acts.skip(5)) is None);
    assert(last_persist(acts.skip(4)) is None);
    assert(last_persist(acts.skip(3)) matches Some((st, msg)) && st == DownloadState::Idle && msg
        == ""@);
    assert(last_persist(acts.skip(2)) == last_persist(acts.skip(3)));
    assert(last_persist(acts.skip(1)) == last_persist(acts.skip(2)));
    assert(last_persist(acts) == last_persist(acts.skip(1)));
}

/// Stopping is safe to repeat and terminal: after any number of consecutive
/// stops, no container with the managed name exists, and the bookkeeping is a
/// fixed point of stopping.
pub proof fn lemma_stop_terminal(stops: Seq<Seq<Action>>, w: bool, m: SenseVoiceManager)
    requires
        stops.len() >= 1,
        forall|i: int| 0 <= i < stops.len() ==> is_stop_actions(#[trigger] stops[i]),
    ensures
        !managed_after(stops.flatten(), w),
        stopped_manager(stopped_manager(m)) == stopped_manager(m),
    decreases stops.len(),
{
    reveal_with_fuel(Seq::flatten, 2);
    if stops.len() == 1 {
        lemma_stop_clean(stops[0], w);
        assert(stops.drop_first().flatten() =~= Seq::<Action>::empty());
        assert(stops.flatten() =~= stops[0] + Seq::<Action>::empty());
        assert(stops[0] + Seq::<Action>::empty() =~= stops[0]);
    } else {
        lemma_stop_clean(stops[0], w);
        lemma_stop_terminal(stops.drop_first(), managed_after(stops[0], w), m);
        assert(stops.flatten() == stops[0] + stops.drop_first().flatten());
        lemma_managed_after_concat(stops[0], stops.drop_first().flatten(), w);
    }
}


/// What the parent does with one worker report, written over the report's
/// mathematical content: progress and log lines go to the user interface,
/// state patches go to the persisted settings verbatim, a final report
/// closes the job with a done or error notice.
pub open spec fn dispatch_ok(m: crate::events::EventModel, acts: Seq<Action>) -> bool {
    match m {
        crate::events::EventModel::Progress { stage, message, percent, detail } => acts.len() == 1
            && (acts[0] matches Action::EmitProgress {
            stage: s,
            message: mm,
            percent: p,
            detail: d,
        } && s@ == stage && mm@ == message && p == percent && (match (d, detail) {
            (Some(dv), Some(ev)) => dv@ == ev,
            (None, None) => true,
            _ => false,
        })),
        crate::events::EventModel::RuntimeLog { stream, line, .. } => acts.len() == 1 && (acts[0]
            matches Action::EmitRuntimeLog { stream: s, line: l } && s@ == stream && l@ == line),
        crate::events::EventModel::State { download_state, last_error, installed, enabled } =>
            acts.len() == 1 && (acts[0] matches Action::PersistWorkerState {
            download_state: ds,
            last_error: le,
            installed: i,
            enabled: n,
        } && ds@ == download_state && le@ == last_error && i == installed && n == enabled),
        crate::events::EventModel::Done { message } => acts.len() == 1 && (acts[0]
            matches Action::EmitProgress { stage: s, message: mm, percent: p, detail: d } && s@
            == "done"@ && mm@ == "SenseVoice service started"@ && p == Some(100u8) && (d
            matches Some(dv) && dv@ == message)),
        crate::events::EventModel::Error { message } => acts.len() == 2 && (acts[0]
            matches Action::PersistWorkerState {
            download_state: ds,
            last_error: le,
            installed: i,
            enabled: n,
        } && ds@ == "error"@ && le@ == message && i is None && n is None) && (acts[1]
            matches Action::EmitProgress { stage: s, message: mm, percent: p, detail: d } && s@
            == "error"@ && mm@ == message && p is None && d is None),
    }
}

/// Dispatches one decoded worker report.
pub fn handle_worker_event(event: crate::events::WorkerEvent) -> (acts: Vec<Action>)
    ensures
        dispatch_ok(crate::events::event_model(event), acts@),
{
    let mut acts: Vec<Action> = Vec::new();
    match event {
        crate::events::WorkerEvent::Progress { stage, message, percent, detail } => {
            acts.push(Action::EmitProgress { stage, message, percent, detail });
        },
        crate::events::WorkerEvent::RuntimeLog { stream, line, .. } => {
            acts.push(Action::EmitRuntimeLog { stream, line });
        },
        crate::events::WorkerEvent::State { download_state, last_error, installed, enabled } => {
            acts.push(
                Action::PersistWorkerState { download_state, last_error, installed, enabled },
            );
        },
        crate::events::WorkerEvent::Done { message } => {
            acts.push(
                Action::EmitProgress {
                    stage: String::from_str("done"),
                    message: String::from_str("SenseVoice service started"),
                    percent: Some(100),
                    detail: Some(message),
                },
            );
        },
        crate::events::WorkerEvent::Error { message } => {
            acts.push(
                Action::PersistWorkerState {
                    download_state: String::from_str("error"),
                    last_error: message.clone(),
                    installed: None,
                    enabled: None,
                },
            );
            acts.push(
                Action::EmitProgress {
                    stage: String::from_str("error"),
                    message,
                    percent: None,
                    detail: None,
                },
            );
        },
    }
    acts
}


impl SenseVoiceManager {
    /// Closes a startup attempt, however it ended: the cancellation flag is
    /// reset and the in-flight marker cleared, so `status()` stops counting
    /// the attempt as running and a later start is not refused for it.
    pub fn finish_startup(&mut self)
        ensures
            *final(self) == (SenseVoiceManager {
                start_in_progress: false,
                start_cancel_flag: false,
                ..*old(self)
            }),
    {
        self.start_cancel_flag = false;
        self.start_in_progress = false;
    }
}

/// The job handed to the provisioning worker, derived from the persisted
/// settings: the variant is normalized, and the image tag and container name
/// are the ones the variant resolves to.
pub fn build_worker_job(
    sensevoice: &SenseVoiceSettings,
    runtime_dir: String,
    models_dir: String,
    state_file: String,
) -> (j: WorkerJob)
    ensures
        ({
            let voxtral = crate::model::eq_ignore_ascii_case_spec(
                sensevoice.local_model@,
                "voxtral"@,
            );
            let qwen = !voxtral && crate::model::eq_ignore_ascii_case_spec(
                sensevoice.local_model@,
                "qwen3-asr"@,
            );
            &&& voxtral ==> j.local_model@ == "voxtral"@ && j.image_tag@
                == "vllm/vllm-openai:nightly"@
            &&& qwen ==> j.local_model@ == "qwen3-asr"@ && j.image_tag@
                == "vllm/vllm-openai:nightly"@
            &&& !voxtral && !qwen ==> j.local_model@ == "sensevoice"@ && j.image_tag@
                == "vtt-sensevoice:local"@
            &&& j.container_name@ == "vtt-sensevoice-service"@
            &&& j.service_url@ == sensevoice.service_url@
            &&& j.model_id@ == sensevoice.model_id@
            &&& j.device@ == sensevoice.device@
            &&& j.runtime_dir@ == runtime_dir@
            &&& j.models_dir@ == models_dir@
            &&& j.state_file@ == state_file@
        }),
{
    proof {
        reveal_strlit("voxtral");
        reveal_strlit("qwen3-asr");
        reveal_strlit("sensevoice");
        assert("voxtral"@.len() == 7);
        assert("qwen3-asr"@.len() == 9);
        assert("sensevoice"@.len() == 10);
    }
    let local_model = crate::model::normalize_local_model(sensevoice.local_model.as_str());
    let image_tag = crate::model::runtime_image_tag(local_model);
    let container_name = crate::model::runtime_container_name(local_model);
    WorkerJob {
        local_model: String::from_str(local_model),
        service_url: sensevoice.service_url.clone(),
        model_id: sensevoice.model_id.clone(),
        device: sensevoice.device.clone(),
        runtime_dir,
        models_dir,
        state_file,
        image_tag: String::from_str(image_tag),
        container_name: String::from_str(container_name),
    }
}


/// The fallback for a worker output line that is not a protocol event: it is
/// surfaced as preparation progress, and a stderr line also as a raw log
/// line marked as the worker's.
pub open spec fn is_fallback_acts(acts: Seq<Action>, content: Seq<char>, from_stderr: bool) -> bool {
    &&& acts.len() == (if from_stderr {
        2int
    } else {
        1int
    })
    &&& (acts[0] matches Action::EmitProgress { stage, message, percent, detail } && stage@
        == "prepare"@ && message@ == "Preparing runtime"@ && percent is None && (detail
        matches Some(d) && d@ == content))
    &&& (from_stderr ==> (acts[1] matches Action::EmitRuntimeLog { stream, line } && stream@
        == "stderr"@ && line@ == "[worker] "@ + content))
}

/// One raw line of the worker's output, turned into the parent's actions:
/// the line is normalized, a protocol event is decoded and dispatched, and
/// anything else is forwarded as raw preparation output.
pub fn worker_line_actions(raw: &str, from_stderr: bool) -> (acts: Vec<Action>)
    ensures
        ({
            let content = crate::text::normalize_log_line_spec(raw@);
            &&& content.len() == 0 ==> acts@.len() == 0
            &&& (forall|m: crate::events::EventModel|
                content == crate::events::enc_event(m) ==> dispatch_ok(m, acts@))
            &&& (content.len() > 0 && (forall|m: crate::events::EventModel|
                content != crate::events::enc_event(m)) ==> is_fallback_acts(
                acts@,
                content,
                from_stderr,
            ))
        }),
{
    let content = crate::text::normalize_log_line(raw);
    if content.as_str().unicode_len() == 0 {
        let acts: Vec<Action> = Vec::new();
        proof {
            assert forall|m: crate::events::EventModel|
                content@ != crate::events::enc_event(m) by {
                if content@ == crate::events::enc_event(m) {
                    crate::events::lemma_enc_event_nonempty(m);
                }
            }
        }
        return acts;
    }
    if let Some(event) = crate::events::decode_event(content.as_str()) {
        let ghost decoded = crate::events::event_model(event);
        let acts = handle_worker_event(event);
        proof {
            assert forall|m: crate::events::EventModel|
                content@ == crate::events::enc_event(m) implies dispatch_ok(m, acts@) by {}
        }
        return acts;
    }
    let mut acts: Vec<Action> = Vec::new();
    acts.push(
        Action::EmitProgress {
            stage: String::from_str("prepare"),
            message: String::from_str("Preparing runtime"),
            percent: None,
            detail: Some(content.clone()),
        },
    );
    if from_stderr {
        let mut marked = String::from_str("[worker] ");
        marked.append(content.as_str());
        acts.push(Action::EmitRuntimeLog { stream: String::from_str("stderr"), line: marked });
    }
    acts
}

} // verus!
