//! The health monitor: one instance per successful startup, polling at a
//! fixed short interval until it is cancelled, sees the container die, or
//! sees the model finish warming up. Readiness is an explicit `ready` field
//! in the health body, or — for inference-server variants without that field
//! — a models listing with at least one entry. A "taking longer than
//! expected" notice is emitted at most once per instance.
use vstd::prelude::*;

use vstd::string::StringExecFns;

use crate::actions::{Action, DownloadState};
use crate::startup::{is_fail_acts, ContainerProbe};

verus! {

/// How long a warm-up may run before the one-time notice, in milliseconds.
pub const WARN_THRESHOLD_MS: u64 = 120000;

/// The least interval between two warming-up progress events, in
/// milliseconds.
pub const WARMUP_EMIT_INTERVAL_MS: u64 = 3000;

/// The name a wrapper gives to what `serde_json` finds under the top-level
/// `ready` key of a health body.
pub uninterp spec fn ready_field_of(body: Seq<char>) -> Option<bool>;

/// Relies on serde_json: parses the body and reads its top-level `ready`
/// field as a boolean, if the body is JSON and has one.
#[verifier::external_body]
fn json_ready_field(body: &str) -> (r: Option<bool>)
    ensures
        r == ready_field_of(body@),
{
    serde_json::from_str::<serde_json::Value>(body).ok().and_then(
        |json| json.get("ready").and_then(|value| value.as_bool()),
    )
}

/// The explicit `ready` boolean of a health body, if it has one.
pub fn parse_health_ready_field(body: &str) -> (r: Option<bool>)
    ensures
        r == ready_field_of(body@),
{
    json_ready_field(body)
}

/// The name a wrapper gives to whether `serde_json` finds a non-empty array
/// under the top-level `data` key of a models listing.
pub uninterp spec fn models_nonempty_of(body: Seq<char>) -> bool;

/// Relies on serde_json: parses the body and reports whether its top-level
/// `data` field is a non-empty array.
#[verifier::external_body]
fn json_models_nonempty(body: &str) -> (r: bool)
    ensures
        r == models_nonempty_of(body@),
{
    serde_json::from_str::<serde_json::Value>(body).ok().map(
        |json| json.get("data").and_then(|value| value.as_array()).is_some_and(
            |models| !models.is_empty(),
        ),
    ).unwrap_or(false)
}

/// Whether a models listing reports at least one served model.
pub fn parse_vllm_models_response_ready(body: &str) -> (r: bool)
    ensures
        r == models_nonempty_of(body@),
{
    json_models_nonempty(body)
}

/// The readiness rule: an explicit `ready` field decides; without one,
/// inference-server variants fall back to the models listing, and the
/// default variant counts as still warming up.
pub open spec fn service_ready_spec(
    ready_field: Option<bool>,
    is_vllm: bool,
    models_ready: bool,
) -> bool {
    match ready_field {
        Some(ready) => ready,
        None => is_vllm && models_ready,
    }
}

pub fn is_service_ready(ready_field: Option<bool>, is_vllm: bool, models_ready: bool) -> (r: bool)
    ensures
        r == service_ready_spec(ready_field, is_vllm, models_ready),
{
    match ready_field {
        Some(ready) => ready,
        None => is_vllm && models_ready,
    }
}

/// One health probe's result, as the driver saw it.
#[derive(Debug, Clone, PartialEq)]
pub struct HealthSample {
    /// The health endpoint answered with a success status.
    pub success: bool,
    /// The body's explicit `ready` field, if any.
    pub ready_field: Option<bool>,
    /// Whether the models listing reported at least one entry.
    pub models_ready: bool,
}

/// What one monitor iteration concluded.
#[derive(Debug, Clone, PartialEq)]
pub enum MonitorOutcome {
    /// Cancellation was observed: clear the cached flag and stop silently.
    Stopped,
    /// The container exited: fatal.
    ContainerExited,
    /// The container could not be inspected: fatal.
    ProbeFailed(String),
    /// The model finished warming up: persist `ready` and stop.
    Ready,
    /// Keep polling.
    Continue,
}

/// One monitor iteration's full verdict.
#[derive(Debug, Clone, PartialEq)]
pub struct MonitorTick {
    pub outcome: MonitorOutcome,
    /// Emit a throttled warming-up progress event.
    pub emit_warmup: bool,
    /// Emit the one-time "taking longer than expected" notice.
    pub warn_now: bool,
}

/// The monitor's own state: whether it has finished and whether the one-time
/// notice went out.
#[derive(Debug, Clone, PartialEq)]
pub struct HealthMonitor {
    pub is_vllm: bool,
    pub warned: bool,
    pub finished: bool,
}

/// The complete step relation of the monitor.
pub open spec fn monitor_ok(
    st: HealthMonitor,
    cancelled: bool,
    container: ContainerProbe,
    health: Option<HealthSample>,
    elapsed_ms: u64,
    since_warmup_emit_ms: u64,
    st2: HealthMonitor,
    tick: MonitorTick,
) -> bool {
    &&& st2.is_vllm == st.is_vllm
    &&& if st.finished {
        st2 == st && tick.outcome == MonitorOutcome::Continue && !tick.emit_warmup && !tick.warn_now
    } else if cancelled {
        st2 == (HealthMonitor { finished: true, ..st }) && tick.outcome == MonitorOutcome::Stopped
            && !tick.emit_warmup && !tick.warn_now
    } else {
        match container {
            ContainerProbe::Exited => st2 == (HealthMonitor { finished: true, ..st })
                && tick.outcome == MonitorOutcome::ContainerExited && !tick.emit_warmup
                && !tick.warn_now,
            ContainerProbe::Unknown(e) => st2 == (HealthMonitor { finished: true, ..st }) && (
            tick.outcome matches MonitorOutcome::ProbeFailed(m) && m@ == e@) && !tick.emit_warmup
                && !tick.warn_now,
            ContainerProbe::Running => {
                let ready = health matches Some(h) && h.success && service_ready_spec(
                    h.ready_field,
                    st.is_vllm,
                    h.models_ready,
                );
                if ready {
                    st2 == (HealthMonitor { finished: true, ..st }) && tick.outcome
                        == MonitorOutcome::Ready && !tick.emit_warmup && !tick.warn_now
                } else {
                    &&& tick.outcome == MonitorOutcome::Continue
                    &&& tick.emit_warmup == (health matches Some(h) && h.success
                        && since_warmup_emit_ms >= WARMUP_EMIT_INTERVAL_MS)
                    &&& tick.warn_now == (!st.warned && elapsed_ms >= WARN_THRESHOLD_MS)
                    &&& st2 == (HealthMonitor { warned: st.warned || tick.warn_now, ..st })
                }
            },
        }
    }
}

impl HealthMonitor {
    pub fn new(is_vllm: bool) -> (r: Self)
        ensures
            r.is_vllm == is_vllm,
            !r.warned,
            !r.finished,
    {
        HealthMonitor { is_vllm, warned: false, finished: false }
    }

    /// One iteration: re-check cancellation, then container liveness, then
    /// the health probe, then the throttled warm-up notices.
    pub fn step(
        &mut self,
        cancelled: bool,
        container: ContainerProbe,
        health: Option<HealthSample>,
        elapsed_ms: u64,
        since_warmup_emit_ms: u64,
    ) -> (tick: MonitorTick)
        ensures
            monitor_ok(
                *old(self),
                cancelled,
                container,
                health,
                elapsed_ms,
                since_warmup_emit_ms,
                *final(self),
                tick,
            ),
    {
        if self.finished {
            return MonitorTick {
                outcome: MonitorOutcome::Continue,
                emit_warmup: false,
                warn_now: false,
            };
        }
        if cancelled {
            self.finished = true;
            return MonitorTick {
                outcome: MonitorOutcome::Stopped,
                emit_warmup: false,
                warn_now: false,
            };
        }
        match container {
            ContainerProbe::Exited => {
                self.finished = true;
                MonitorTick {
                    outcome: MonitorOutcome::ContainerExited,
                    emit_warmup: false,
                    warn_now: false,
                }
            },
            ContainerProbe::Unknown(e) => {
                self.finished = true;
                MonitorTick {
                    outcome: MonitorOutcome::ProbeFailed(e),
                    emit_warmup: false,
                    warn_now: false,
                }
            },
            ContainerProbe::Running => {
                let mut ready = false;
                let mut success = false;
                if let Some(h) = &health {
                    success = h.success;
                    if h.success && is_service_ready(h.ready_field, self.is_vllm, h.models_ready) {
                        ready = true;
                    }
                }
                if ready {
                    self.finished = true;
                    return MonitorTick {
                        outcome: MonitorOutcome::Ready,
                        emit_warmup: false,
                        warn_now: false,
                    };
                }
                let emit_warmup = success && since_warmup_emit_ms >= WARMUP_EMIT_INTERVAL_MS;
                let warn_now = !self.warned && elapsed_ms >= WARN_THRESHOLD_MS;
                if warn_now {
                    self.warned = true;
                }
                MonitorTick { outcome: MonitorOutcome::Continue, emit_warmup, warn_now }
            },
        }
    }
}

/// The message a monitor failure persists, before the log tail is appended.
pub fn monitor_failure_reason(outcome: &MonitorOutcome) -> (r: Option<String>)
    ensures
        match outcome {
            MonitorOutcome::ContainerExited => r matches Some(m) && m@
                == "SenseVoice 服务容器已退出"@,
            MonitorOutcome::ProbeFailed(e) => r matches Some(m) && m@
                == "SenseVoice 服务状态检查失败: "@ + e@,
            _ => r is None,
        },
{
    match outcome {
        MonitorOutcome::ContainerExited => Some(String::from_str("SenseVoice 服务容器已退出")),
        MonitorOutcome::ProbeFailed(e) => {
            let mut m = String::from_str("SenseVoice 服务状态检查失败: ");
            m.append(e.as_str());
            Some(m)
        },
        _ => None,
    }
}

/// The full persisted message of a monitor failure: the reason, then the
/// captured log tail. Never empty, and always carries the tail.
pub fn monitor_failure_message(reason: &str, tail: &str) -> (r: String)
    ensures
        r@ == reason@ + "。最近日志: "@ + tail@,
        r@.len() > 0,
        crate::text::contains_seq(r@, tail@),
{
    let mut m = String::from_str(reason);
    m.append("。最近日志: ");
    m.append(tail);
    proof {
        reveal_strlit("。最近日志: ");
        let at = m@.len() - tail@.len();
        assert(m@.subrange(at as int, m@.len() as int) =~= tail@);
        assert(crate::text::occurs_at(m@, tail@, at as int));
    }
    m
}

/// The actions of a monitor failure: clear the cached running flag, persist
/// the message as an error, surface it, detach the logs, and remove the
/// managed containers.
pub open spec fn is_monitor_fail_acts(acts: Seq<Action>, msg: Seq<char>) -> bool {
    &&& acts.len() == 5
    &&& acts[0] == (Action::SetRunningCache { value: false })
    &&& is_fail_acts(acts.skip(1), msg)
}

pub fn monitor_failure_actions(message: String) -> (acts: Vec<Action>)
    ensures
        is_monitor_fail_acts(acts@, message@),
{
    let mut acts: Vec<Action> = Vec::new();
    acts.push(Action::SetRunningCache { value: false });
    acts.push(
        Action::PersistState { state: DownloadState::Error, last_error: message.clone() },
    );
    acts.push(
        Action::EmitProgress {
            stage: String::from_str("error"),
            message: String::from_str("SenseVoice health monitor failed"),
            percent: None,
            detail: Some(message),
        },
    );
    acts.push(Action::StopLogStream);
    acts.push(Action::RemoveManagedContainers);
    proof {
        let tail = acts@.skip(1);
        assert(tail.len() == 4);
        assert(tail[0] == acts@[1]);
        assert(tail[1] == acts@[2]);
        assert(tail[2] == acts@[3]);
        assert(tail[3] == acts@[4]);
    }
    acts
}

/// The actions when the model finished warming up: persist `ready` with no
/// error and report completion; the cached flag stays true.
pub fn monitor_success_actions() -> (acts: Vec<Action>)
    ensures
        acts@.len() == 2,
        (acts@[0] matches Action::PersistState { state, last_error } && state
            == DownloadState::Ready && last_error@ == ""@),
        (acts@[1] matches Action::EmitProgress { stage, message, percent, detail } && stage@
            == "done"@ && message@ == "SenseVoice service ready"@ && percent == Some(100u8)
            && detail is None),
{
    proof {
        reveal_strlit("");
    }
    let mut acts: Vec<Action> = Vec::new();
    acts.push(Action::PersistState { state: DownloadState::Ready, last_error: String::new() });
    acts.push(
        Action::EmitProgress {
            stage: String::from_str("done"),
            message: String::from_str("SenseVoice service ready"),
            percent: Some(100),
            detail: None,
        },
    );
    acts
}

/// The actions when cancellation stops the monitor: clear the cached running
/// flag and tell the user interface the service stopped — no error, since
/// cancellation is not a failure.
pub fn monitor_stopped_actions() -> (acts: Vec<Action>)
    ensures
        acts@.len() == 2,
        acts@[0] == (Action::SetRunningCache { value: false }),
        (acts@[1] matches Action::EmitProgress { stage, message, percent, detail } && stage@
            == "stopped"@ && message@ == "SenseVoice service stopped"@ && percent is None
            && detail is None),
{
    let mut acts: Vec<Action> = Vec::new();
    acts.push(Action::SetRunningCache { value: false });
    acts.push(
        Action::EmitProgress {
            stage: String::from_str("stopped"),
            message: String::from_str("SenseVoice service stopped"),
            percent: None,
            detail: None,
        },
    );
    acts
}

/// How many iterations of a run emitted the one-time notice.
pub open spec fn count_warns(ticks: Seq<MonitorTick>) -> int
    decreases ticks.len(),
{
    if ticks.len() == 0 {
        0
    } else {
        count_warns(ticks.drop_last()) + if ticks.last().warn_now {
            1int
        } else {
            0int
        }
    }
}

/// One run of the monitor: consecutive states tied by the step relation.
pub open spec fn monitor_run(
    states: Seq<HealthMonitor>,
    inputs: Seq<(bool, ContainerProbe, Option<HealthSample>, u64, u64)>,
    ticks: Seq<MonitorTick>,
) -> bool {
    &&& states.len() == inputs.len() + 1
    &&& ticks.len() == inputs.len()
    &&& forall|i: int|
        0 <= i < inputs.len() ==> monitor_ok(
            states[i],
            inputs[i].0,
            inputs[i].1,
            inputs[i].2,
            inputs[i].3,
            inputs[i].4,
            states[i + 1],
            #[trigger] ticks[i],
        )
}

/// Law: a monitor that starts without having warned emits the "taking longer
/// than expected" notice at most once, however long it runs.
pub proof fn lemma_warn_at_most_once(
    states: Seq<HealthMonitor>,
    inputs: Seq<(bool, ContainerProbe, Option<HealthSample>, u64, u64)>,
    ticks: Seq<MonitorTick>,
)
    requires
        monitor_run(states, inputs, ticks),
        !states[0].warned,
    ensures
        count_warns(ticks) <= 1,
        !states.last().warned ==> count_warns(ticks) == 0,
    decreases inputs.len(),
{
    let n = inputs.len() as int;
    if n > 0 {
        assert(monitor_run(states.drop_last(), inputs.drop_last(), ticks.drop_last())) by {
            assert forall|i: int| 0 <= i < n - 1 implies monitor_ok(
                states.drop_last()[i],
                inputs.drop_last()[i].0,
                inputs.drop_last()[i].1,
                inputs.drop_last()[i].2,
                inputs.drop_last()[i].3,
                inputs.drop_last()[i].4,
                states.drop_last()[i + 1],
                #[trigger] ticks.drop_last()[i],
            ) by {
                assert(monitor_ok(
                    states[i],
                    inputs[i].0,
                    inputs[i].1,
                    inputs[i].2,
                    inputs[i].3,
                    inputs[i].4,
                    states[i + 1],
                    ticks[i],
                ));
            }
        }
        lemma_warn_at_most_once(states.drop_last(), inputs.drop_last(), ticks.drop_last());
        assert(monitor_ok(
            states[n - 1],
            inputs[n - 1].0,
            inputs[n - 1].1,
            inputs[n - 1].2,
            inputs[n - 1].3,
            inputs[n - 1].4,
            states[n],
            ticks[n - 1],
        ));
        assert(states.drop_last().last() == states[n - 1]);
        if ticks[n - 1].warn_now {
            assert(!states[n - 1].warned);
            assert(states[n].warned);
        } else {
            assert(states[n].warned == states[n - 1].warned);
        }
    }
}

} // verus!
