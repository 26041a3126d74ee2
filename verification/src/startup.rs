//! The startup orchestrator: a state machine that, fed one observation per
//! step, walks `validating` → `ensuring-engine` → `ensuring-image` →
//! `launching` → `awaiting-reachable` → `monitoring`, honoring a cooperative
//! cancellation flag before every step. The driver performs the returned
//! actions and reports what it saw. On any failure the machine persists an
//! error and orders cleanup; on cancellation it persists idle and stays
//! silent, since cancellation is not a user-visible failure.
use vstd::prelude::*;

use vstd::string::StringExecFns;

use crate::actions::{last_persist, lemma_managed_after_concat, managed_after, Action,
    DownloadState};
use crate::codec::{dec_chars, push_dec_u64};
use crate::facade::SenseVoiceError;
use crate::text::chars_to_string;

verus! {

/// The sentinel a cancelled step raises internally, distinguished from every
/// user-visible error.
pub const START_CANCELLED_MARKER: &'static str = "__sensevoice_start_cancelled__";

/// Raises the cancellation sentinel when the shared flag is set.
pub fn check_start_cancelled(cancel_flag: bool) -> (r: Result<(), SenseVoiceError>)
    ensures
        cancel_flag <==> r is Err,
        r is Err ==> (r->Err_0 matches SenseVoiceError::Process(m) && m@
            == "__sensevoice_start_cancelled__"@),
{
    if cancel_flag {
        Err(SenseVoiceError::Process(String::from_str("__sensevoice_start_cancelled__")))
    } else {
        Ok(())
    }
}

/// Whether an error is the internal cancellation sentinel.
pub fn is_start_cancelled_error(err: &SenseVoiceError) -> (r: bool)
    ensures
        r == (err matches SenseVoiceError::Process(m) && m@ == "__sensevoice_start_cancelled__"@),
{
    match err {
        SenseVoiceError::Process(message) => crate::model::str_eq(
            message.as_str(),
            START_CANCELLED_MARKER,
        ),
        _ => false,
    }
}

/// Where a startup attempt stands.
#[derive(Debug, Clone, Copy, PartialEq, Eq, Structural)]
pub enum StartPhase {
    Validating,
    EnsuringEngine,
    EnsuringImage,
    Launching,
    AwaitingReachable,
    Monitoring,
    Failed,
    Cancelled,
}

/// A terminal phase: the attempt is over and further events change nothing.
pub open spec fn is_terminal(p: StartPhase) -> bool {
    p == StartPhase::Monitoring || p == StartPhase::Failed || p == StartPhase::Cancelled
}

/// What the driver observed of the managed container during one poll.
#[derive(Debug, Clone, PartialEq)]
pub enum ContainerProbe {
    Running,
    Exited,
    Unknown(String),
}

/// One observation fed to the machine.
#[derive(Debug, Clone, PartialEq)]
pub enum StartEvent {
    /// The persisted configuration was read.
    ConfigLoaded { installed: bool },
    /// The engine CLI and its daemon were probed; two distinct checks with
    /// two distinct failure details.
    EngineChecked { cli_ok: bool, cli_detail: String, daemon_ok: bool, daemon_detail: String },
    /// The image was built or pulled; on failure `detail` is the message and
    /// `tail` the diagnostic tail captured at that moment.
    ImageEnsured { ok: bool, detail: String, tail: String },
    /// The container was launched; on failure `detail` is the message and
    /// `tail` the diagnostic tail captured at that moment.
    Launched { ok: bool, detail: String, tail: String },
    /// One reachability poll: container liveness, whether the health probe
    /// answered, whether the budget ran out, and the current log tail.
    Poll { container: ContainerProbe, reachable: bool, timed_out: bool, tail: String },
}

/// The actions of a failed step: persist the error, tell the user interface,
/// detach the logs, and remove the managed containers.
pub open spec fn is_fail_acts(acts: Seq<Action>, msg: Seq<char>) -> bool {
    &&& acts.len() == 4
    &&& (acts[0] matches Action::PersistState { state, last_error } && state == DownloadState::Error
        && last_error@ == msg)
    &&& (acts[1] matches Action::EmitProgress { stage, .. } && stage@ == "error"@)
    &&& acts[2] == Action::StopLogStream
    &&& acts[3] == Action::RemoveManagedContainers
}

/// The actions of a cancelled step: persist idle with no error, detach the
/// logs, and remove the managed containers; no error is surfaced.
pub open spec fn is_cancel_acts(acts: Seq<Action>) -> bool {
    &&& acts.len() == 3
    &&& (acts[0] matches Action::PersistState { state, last_error } && state == DownloadState::Idle
        && last_error@ == ""@)
    &&& acts[1] == Action::StopLogStream
    &&& acts[2] == Action::RemoveManagedContainers
}

/// The actions when the service became reachable: persist `running`, report
/// warm-up, and hand over to the health monitor.
pub open spec fn is_reach_acts(acts: Seq<Action>) -> bool {
    &&& acts.len() == 3
    &&& (acts[0] matches Action::PersistState { state, last_error } && state
        == DownloadState::Running && last_error@ == ""@)
    &&& (acts[1] matches Action::EmitProgress { stage, .. } && stage@ == "verify"@)
    &&& acts[2] == Action::StartMonitor
}

/// The actions when the image is in place: force-remove any stale container,
/// then launch a fresh one.
pub open spec fn is_launch_acts(acts: Seq<Action>) -> bool {
    &&& acts.len() == 2
    &&& acts[0] == Action::RemoveManagedContainers
    &&& acts[1] == Action::LaunchContainer
}

/// The actions when the container is up: mark the cached flag and attach to
/// its logs.
pub open spec fn is_attach_acts(acts: Seq<Action>) -> bool {
    &&& acts.len() == 2
    &&& acts[0] == Action::SetRunningCache { value: true }
    &&& acts[1] == Action::StartLogStream
}

/// The persisted message when the container exited while awaiting
/// reachability.
pub open spec fn exited_msg(tail: Seq<char>) -> Seq<char> {
    "SenseVoice 请求失败: "@ + "SenseVoice 服务容器已退出。最近日志: "@ + tail
}

/// The persisted message when the container could not be inspected.
pub open spec fn probe_msg(detail: Seq<char>) -> Seq<char> {
    "SenseVoice 请求失败: "@ + "SenseVoice 服务状态检查失败: "@ + detail
}

/// The persisted message when the startup budget ran out.
pub open spec fn timeout_msg(secs: u64, tail: Seq<char>) -> Seq<char> {
    "SenseVoice 请求失败: "@ + "SenseVoice 服务启动超时（"@ + dec_chars(secs as nat)
        + " 秒）。最近日志: "@ + tail
}

/// A failure message composed with the diagnostic tail: the tail is appended
/// unless the message already carries one or nothing was captured.
pub open spec fn composed_failure_msg(detail: Seq<char>, tail: Seq<char>) -> Seq<char> {
    if crate::text::contains_seq(detail, "最近日志:"@) || tail == "（无日志）"@ {
        detail
    } else {
        detail + "。最近日志: "@ + tail
    }
}

/// Composes a failure message with the captured diagnostic tail.
pub fn compose_failure_message(detail: String, tail: &str) -> (r: String)
    ensures
        r@ == composed_failure_msg(detail@, tail@),
{
    proof {
        reveal_strlit("（无日志）");
    }
    let hay = crate::text::string_to_chars(detail.as_str());
    let marker = crate::text::string_to_chars("最近日志:");
    if crate::text::contains_chars(&hay, &marker) || crate::model::str_eq(
        tail,
        crate::tail::NO_LOGS_PLACEHOLDER,
    ) {
        return detail;
    }
    let mut out = detail;
    out.append("。最近日志: ");
    out.append(tail);
    out
}

/// The persisted message when the configuration is not installed.
pub open spec fn not_installed_msg() -> Seq<char> {
    "SenseVoice 配置错误: "@ + "SenseVoice 尚未安装，请先完成下载"@
}

/// The persisted message when the engine CLI is missing or broken.
pub open spec fn cli_msg(detail: Seq<char>) -> Seq<char> {
    "SenseVoice 配置错误: "@ + "Docker 不可用，请先安装 Docker Desktop 并确保 docker 命令可执行: "@
        + detail
}

/// The persisted message when the engine daemon is not reachable.
pub open spec fn daemon_msg(detail: Seq<char>) -> Seq<char> {
    "SenseVoice 配置错误: "@ + "Docker daemon 未运行，请先启动 Docker Desktop: "@ + detail
}

/// The complete step relation of the startup machine: given the phase, the
/// cancellation flag and the observation, which phase follows and which
/// actions are ordered.
pub open spec fn step_ok(
    p: StartPhase,
    timeout_secs: u64,
    cancelled: bool,
    ev: StartEvent,
    p2: StartPhase,
    acts: Seq<Action>,
) -> bool {
    if is_terminal(p) {
        p2 == p && acts.len() == 0
    } else if cancelled {
        p2 == StartPhase::Cancelled && is_cancel_acts(acts)
    } else {
        match (p, ev) {
            (StartPhase::Validating, StartEvent::ConfigLoaded { installed }) => if installed {
                p2 == StartPhase::EnsuringEngine && acts.len() == 0
            } else {
                p2 == StartPhase::Failed && is_fail_acts(acts, not_installed_msg())
            },
            (
                StartPhase::EnsuringEngine,
                StartEvent::EngineChecked { cli_ok, cli_detail, daemon_ok, daemon_detail },
            ) => if !cli_ok {
                p2 == StartPhase::Failed && is_fail_acts(acts, cli_msg(cli_detail@))
            } else if !daemon_ok {
                p2 == StartPhase::Failed && is_fail_acts(acts, daemon_msg(daemon_detail@))
            } else {
                p2 == StartPhase::EnsuringImage && acts.len() == 0
            },
            (StartPhase::EnsuringImage, StartEvent::ImageEnsured { ok, detail, tail }) => if ok {
                p2 == StartPhase::Launching && is_launch_acts(acts)
            } else {
                p2 == StartPhase::Failed && is_fail_acts(
                    acts,
                    composed_failure_msg(detail@, tail@),
                )
            },
            (StartPhase::Launching, StartEvent::Launched { ok, detail, tail }) => if ok {
                p2 == StartPhase::AwaitingReachable && is_attach_acts(acts)
            } else {
                p2 == StartPhase::Failed && is_fail_acts(
                    acts,
                    composed_failure_msg(detail@, tail@),
                )
            },
            (
                StartPhase::AwaitingReachable,
                StartEvent::Poll { container, reachable, timed_out, tail },
            ) => match container {
                ContainerProbe::Exited => p2 == StartPhase::Failed && is_fail_acts(
                    acts,
                    exited_msg(tail@),
                ),
                ContainerProbe::Unknown(e) => p2 == StartPhase::Failed && is_fail_acts(
                    acts,
                    probe_msg(e@),
                ),
                ContainerProbe::Running => if reachable {
                    p2 == StartPhase::Monitoring && is_reach_acts(acts)
                } else if timed_out {
                    p2 == StartPhase::Failed && is_fail_acts(
                        acts,
                        timeout_msg(timeout_secs, tail@),
                    )
                } else {
                    p2 == StartPhase::AwaitingReachable && acts.len() == 0
                },
            },
            _ => p2 == p && acts.len() == 0,
        }
    }
}

/// One startup attempt.
#[derive(Debug, Clone, PartialEq)]
pub struct StartupMachine {
    pub phase: StartPhase,
    pub timeout_secs: u64,
}

impl StartupMachine {
    /// A fresh attempt with the variant's startup budget.
    pub fn new(timeout_secs: u64) -> (r: Self)
        ensures
            r.phase == StartPhase::Validating,
            r.timeout_secs == timeout_secs,
    {
        StartupMachine { phase: StartPhase::Validating, timeout_secs }
    }

    /// Feeds one observation, checking the cancellation flag first; this is
    /// the sole cancellation mechanism, cooperative and never preemptive.
    pub fn step(&mut self, cancelled: bool, ev: StartEvent) -> (acts: Vec<Action>)
        ensures
            step_ok(
                old(self).phase,
                old(self).timeout_secs,
                cancelled,
                ev,
                final(self).phase,
                acts@,
            ),
            final(self).timeout_secs == old(self).timeout_secs,
    {
        proof {
            reveal_strlit("");
        }
        let mut acts: Vec<Action> = Vec::new();
        if self.phase == StartPhase::Monitoring || self.phase == StartPhase::Failed || self.phase
            == StartPhase::Cancelled {
            return acts;
        }
        if cancelled {
            self.phase = StartPhase::Cancelled;
            acts.push(
                Action::PersistState { state: DownloadState::Idle, last_error: String::new() },
            );
            acts.push(Action::StopLogStream);
            acts.push(Action::RemoveManagedContainers);
            proof {
                assert(acts@.len() == 3);
                assert(acts@[0] matches Action::PersistState { state, last_error } && state
                    == DownloadState::Idle && last_error@ == ""@);
                assert(acts@[1] == Action::StopLogStream);
                assert(acts@[2] == Action::RemoveManagedContainers);
            }
            return acts;
        }
        match (self.phase, ev) {
            (StartPhase::Validating, StartEvent::ConfigLoaded { installed }) => {
                if installed {
                    self.phase = StartPhase::EnsuringEngine;
                } else {
                    let msg = SenseVoiceError::Config(
                        String::from_str("SenseVoice 尚未安装，请先完成下载"),
                    ).message();
                    proof {
                        assert(msg@ =~= not_installed_msg());
                    }
                    self.fail(msg, &mut acts);
                }
            },
            (
                StartPhase::EnsuringEngine,
                StartEvent::EngineChecked { cli_ok, cli_detail, daemon_ok, daemon_detail },
            ) => {
                if !cli_ok {
                    let mut m = String::from_str(
                        "Docker 不可用，请先安装 Docker Desktop 并确保 docker 命令可执行: ",
                    );
                    m.append(cli_detail.as_str());
                    let msg = SenseVoiceError::Config(m).message();
                    proof {
                        assert(msg@ =~= cli_msg(cli_detail@));
                    }
                    self.fail(msg, &mut acts);
                } else if !daemon_ok {
                    let mut m = String::from_str("Docker daemon 未运行，请先启动 Docker Desktop: ");
                    m.append(daemon_detail.as_str());
                    let msg = SenseVoiceError::Config(m).message();
                    proof {
                        assert(msg@ =~= daemon_msg(daemon_detail@));
                    }
                    self.fail(msg, &mut acts);
                } else {
                    self.phase = StartPhase::EnsuringImage;
                }
            },
            (StartPhase::EnsuringImage, StartEvent::ImageEnsured { ok, detail, tail }) => {
                if ok {
                    self.phase = StartPhase::Launching;
                    acts.push(Action::RemoveManagedContainers);
                    acts.push(Action::LaunchContainer);
                    proof {
                        assert(acts@.len() == 2);
                        assert(acts@[0] == Action::RemoveManagedContainers);
                        assert(acts@[1] == Action::LaunchContainer);
                    }
                } else {
                    let msg = compose_failure_message(detail, tail.as_str());
                    self.fail(msg, &mut acts);
                }
            },
            (StartPhase::Launching, StartEvent::Launched { ok, detail, tail }) => {
                if ok {
                    self.phase = StartPhase::AwaitingReachable;
                    acts.push(Action::SetRunningCache { value: true });
                    acts.push(Action::StartLogStream);
                    proof {
                        assert(acts@.len() == 2);
                        assert(acts@[0] == (Action::SetRunningCache { value: true }));
                        assert(acts@[1] == Action::StartLogStream);
                    }
                } else {
                    let msg = compose_failure_message(detail, tail.as_str());
                    self.fail(msg, &mut acts);
                }
            },
            (
                StartPhase::AwaitingReachable,
                StartEvent::Poll { container, reachable, timed_out, tail },
            ) => {
                match container {
                    ContainerProbe::Exited => {
                        let mut m = String::from_str("SenseVoice 服务容器已退出。最近日志: ");
                        m.append(tail.as_str());
                        let msg = SenseVoiceError::Request(m).message();
                        proof {
                            assert(msg@ =~= exited_msg(tail@));
                        }
                        self.fail(msg, &mut acts);
                    },
                    ContainerProbe::Unknown(e) => {
                        let mut m = String::from_str("SenseVoice 服务状态检查失败: ");
                        m.append(e.as_str());
                        let msg = SenseVoiceError::Request(m).message();
                        proof {
                            assert(msg@ =~= probe_msg(e@));
                        }
                        self.fail(msg, &mut acts);
                    },
                    ContainerProbe::Running => {
                        if reachable {
                            self.phase = StartPhase::Monitoring;
                            acts.push(
                                Action::PersistState {
                                    state: DownloadState::Running,
                                    last_error: String::new(),
                                },
                            );
                            acts.push(
                                Action::EmitProgress {
                                    stage: String::from_str("verify"),
                                    message: String::from_str(
                                        "SenseVoice service started, model warming up",
                                    ),
                                    percent: Some(85),
                                    detail: Some(
                                        String::from_str(
                                            "Service is reachable; model warmup is still running",
                                        ),
                                    ),
                                },
                            );
                            acts.push(Action::StartMonitor);
                            proof {
                                assert(acts@.len() == 3);
                                assert(acts@[0] matches Action::PersistState { state, last_error }
                                    && state == DownloadState::Running && last_error@ == ""@);
                                assert(acts@[1] matches Action::EmitProgress { stage, .. } && stage@
                                    == "verify"@);
                                assert(acts@[2] == Action::StartMonitor);
                            }
                        } else if timed_out {
                            let mut m = String::from_str("SenseVoice 服务启动超时（");
                            let mut digits: Vec<char> = Vec::new();
                            push_dec_u64(&mut digits, self.timeout_secs);
                            let digits_s = chars_to_string(&digits);
                            m.append(digits_s.as_str());
                            m.append(" 秒）。最近日志: ");
                            m.append(tail.as_str());
                            let msg = SenseVoiceError::Request(m).message();
                            proof {
                                assert(msg@ =~= timeout_msg(old(self).timeout_secs, tail@));
                            }
                            self.fail(msg, &mut acts);
                        }
                    },
                }
            },
            _ => {},
        }
        acts
    }

    /// Enters the failed phase: persist the message, surface it, detach the
    /// logs and remove the containers.
    fn fail(&mut self, msg: String, acts: &mut Vec<Action>)
        requires
            old(acts)@.len() == 0,
        ensures
            final(self).phase == StartPhase::Failed,
            final(self).timeout_secs == old(self).timeout_secs,
            is_fail_acts(final(acts)@, msg@),
    {
        self.phase = StartPhase::Failed;
        acts.push(Action::PersistState { state: DownloadState::Error, last_error: msg.clone() });
        acts.push(
            Action::EmitProgress {
                stage: String::from_str("error"),
                message: String::from_str("SenseVoice startup failed"),
                percent: None,
                detail: Some(msg),
            },
        );
        acts.push(Action::StopLogStream);
        acts.push(Action::RemoveManagedContainers);
    }
}


/// A failed step's actions leave no managed container and persist the error
/// as the last state.
pub proof fn lemma_fail_acts_clean(acts: Seq<Action>, msg: Seq<char>, w: bool)
    requires
        is_fail_acts(acts, msg),
    ensures
        !managed_after(acts, w),
        last_persist(acts) matches Some((st, m)) && st == DownloadState::Error && m == msg,
{
    assert(acts.skip(1).skip(1) =~= acts.skip(2));
    assert(acts.skip(2).skip(1) =~= acts.skip(3));
    assert(acts.skip(3).skip(1) =~= acts.skip(4));
    assert(acts.skip(4).len() == 0);
    assert(acts.skip(1)[0] == acts[1]);
    assert(acts.skip(2)[0] == acts[2]);
    assert(acts.skip(3)[0] == acts[3]);
    assert(!managed_after(acts.skip(4), false));
    assert(!managed_after(acts.skip(3), w));
    assert(!managed_after(acts.skip(2), w));
    assert(!managed_after(acts.skip(1), w));
    assert(last_persist(acts.skip(4)) is None);
    assert(last_persist(acts.skip(3)) is None);
    assert(last_persist(acts.skip(2)) is None);
    assert(last_persist(acts.skip(1)) is None);
}

/// A cancelled step's actions leave no managed container and persist idle
/// with no error as the last state.
pub proof fn lemma_cancel_acts_clean(acts: Seq<Action>, w: bool)
    requires
        is_cancel_acts(acts),
    ensures
        !managed_after(acts, w),
        last_persist(acts) matches Some((st, m)) && st == DownloadState::Idle && m == ""@,
{
    assert(acts.skip(1).skip(1) =~= acts.skip(2));
    assert(acts.skip(2).skip(1) =~= acts.skip(3));
    assert(acts.skip(3).len() == 0);
    assert(acts.skip(1)[0] == acts[1]);
    assert(acts.skip(2)[0] == acts[2]);
    assert(!managed_after(acts.skip(3), false));
    assert(!managed_after(acts.skip(2), w));
    assert(!managed_after(acts.skip(1), w));
    assert(last_persist(acts.skip(3)) is None);
    assert(last_persist(acts.skip(2)) is None);
    assert(last_persist(acts.skip(1)) is None);
}

/// Law: when cancellation is observed before an attempt completes, no
/// container launched by the attempt survives it — whatever the world looked
/// like before — and the state persisted last is `idle` with no error, never
/// `error`. `phases`, `inputs` and `actss` are any run of `step`.
pub proof fn lemma_cancelled_run_clean(
    phases: Seq<StartPhase>,
    timeout_secs: u64,
    inputs: Seq<(bool, StartEvent)>,
    actss: Seq<Seq<Action>>,
    w: bool,
)
    requires
        phases.len() == inputs.len() + 1,
        actss.len() == inputs.len(),
        inputs.len() >= 1,
        phases[0] == StartPhase::Validating,
        forall|i: int|
            0 <= i < inputs.len() ==> step_ok(
                phases[i],
                timeout_secs,
                inputs[i].0,
                inputs[i].1,
                phases[i + 1],
                #[trigger] actss[i],
            ),
        phases.last() == StartPhase::Cancelled,
    ensures
        !managed_after(actss.flatten_alt(), w),
        last_persist(actss.flatten_alt()) matches Some((st, m)) && st == DownloadState::Idle && m
            == ""@,
    decreases inputs.len(),
{
    let n = inputs.len() as int;
    let prev = phases[n - 1];
    let last_acts = actss[n - 1];
    assert(step_ok(prev, timeout_secs, inputs[n - 1].0, inputs[n - 1].1, phases[n], last_acts));
    assert(actss.flatten_alt() == actss.drop_last().flatten_alt() + actss.last());
    if is_terminal(prev) {
        assert(prev == StartPhase::Cancelled);
        assert(n >= 2);
        lemma_cancelled_run_clean(
            phases.drop_last(),
            timeout_secs,
            inputs.drop_last(),
            actss.drop_last(),
            w,
        );
        assert(last_acts.len() == 0);
        lemma_managed_after_concat(actss.drop_last().flatten_alt(), actss.last(), w);
        crate::actions::lemma_last_persist_concat(actss.drop_last().flatten_alt(), actss.last());
    } else {
        assert(inputs[n - 1].0 && is_cancel_acts(last_acts)) by {
            if !inputs[n - 1].0 {
                assert(phases[n] != StartPhase::Cancelled);
            }
        }
        lemma_cancel_acts_clean(last_acts, managed_after(actss.drop_last().flatten_alt(), w));
        lemma_managed_after_concat(actss.drop_last().flatten_alt(), actss.last(), w);
        crate::actions::lemma_last_persist_concat(actss.drop_last().flatten_alt(), actss.last());
    }
}

/// Law: when the container exits while the machine awaits reachability, the
/// step fails the attempt, persists an `error` whose message carries the
/// captured log tail and is never empty, and removes the managed containers.
pub proof fn lemma_container_exit_reported(
    p: StartPhase,
    timeout_secs: u64,
    cancelled: bool,
    ev: StartEvent,
    p2: StartPhase,
    acts: Seq<Action>,
    w: bool,
)
    requires
        step_ok(p, timeout_secs, cancelled, ev, p2, acts),
        p == StartPhase::AwaitingReachable,
        !cancelled,
        ev matches StartEvent::Poll { container: ContainerProbe::Exited, .. },
    ensures
        p2 == StartPhase::Failed,
        ev matches StartEvent::Poll { tail, .. } && is_fail_acts(acts, exited_msg(tail@)),
        !managed_after(acts, w),
        (last_persist(acts) matches Some((st, m)) && st == DownloadState::Error && m.len() > 0 && (
        ev matches StartEvent::Poll { tail, .. } && crate::text::contains_seq(m, tail@))),
{
    reveal_strlit("SenseVoice 请求失败: ");
    reveal_strlit("SenseVoice 服务容器已退出。最近日志: ");
    match ev {
        StartEvent::Poll { tail, .. } => {
            lemma_fail_acts_clean(acts, exited_msg(tail@), w);
            let m = exited_msg(tail@);
            let at = m.len() - tail@.len();
            assert(m.subrange(at as int, m.len() as int) =~= tail@);
            assert(crate::text::occurs_at(m, tail@, at as int));
        },
        _ => {},
    }
}


/// The name a wrapper gives to whether a body parses as JSON at all.
pub uninterp spec fn is_json_of(body: Seq<char>) -> bool;

/// Relies on serde_json: whether the body parses as a JSON value.
#[verifier::external_body]
fn json_body_valid(body: &str) -> (r: bool)
    ensures
        r == is_json_of(body@),
{
    serde_json::from_str::<serde_json::Value>(body).is_ok()
}

/// Whether a health answer counts as reachable: any success status, or any
/// body that parses as structured data — readiness is not required here,
/// only that the process answers.
pub fn http_probe_reachable(status_success: bool, body: &str) -> (r: bool)
    ensures
        r == (status_success || is_json_of(body@)),
{
    status_success || json_body_valid(body)
}

} // verus!
