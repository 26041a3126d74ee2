//! The provisioning worker's own logic: the staged plan it walks — engine
//! check, image build or pull, model download, service start — and the exact
//! protocol events it reports at each stage. The worker runs out of process
//! so a crash or a very long download cannot corrupt the main process's
//! bookkeeping; everything it says goes through `WorkerEvent` lines.
use vstd::prelude::*;

use vstd::string::StringExecFns;

use crate::events::WorkerEvent;
use crate::startup::ContainerProbe;
use crate::tail::{clean_lines_spec, join_sep, views_of, NO_LOGS_PLACEHOLDER};
use crate::text::{chars_to_string, string_to_chars, trim_chars, trim_spec};

verus! {

/// The worker's own two-way variant split: it only distinguishes the pull
/// variant from the default build-and-download one.
pub fn normalize_local_model(value: &str) -> (r: &str)
    ensures
        crate::model::eq_ignore_ascii_case_spec(value@, "voxtral"@) ==> r@ == "voxtral"@,
        !crate::model::eq_ignore_ascii_case_spec(value@, "voxtral"@) ==> r@ == "sensevoice"@,
{
    if crate::model::eq_ignore_ascii_case(value, "voxtral") {
        "voxtral"
    } else {
        "sensevoice"
    }
}

/// The image the worker pulls for the pull variant.
pub const VOXTRAL_IMAGE_TAG: &'static str = "vllm/vllm-openai:latest";

/// Where a provisioning run stands.
#[derive(Debug, Clone, Copy, PartialEq, Eq, Structural)]
pub enum PreparePhase {
    Starting,
    CheckingEngine,
    EnsuringImage,
    DownloadingModel,
    StartingService,
    Completed,
    Failed,
}

/// A `State` protocol event with the given fields.
pub open spec fn is_state_event(
    e: WorkerEvent,
    state: Seq<char>,
    err: Seq<char>,
    installed: Option<bool>,
    enabled: Option<bool>,
) -> bool {
    e matches WorkerEvent::State { download_state, last_error, installed: i, enabled: n }
        && download_state@ == state && last_error@ == err && i == installed && n == enabled
}

/// A `Progress` protocol event with the given stage and percent.
pub open spec fn is_progress_event(e: WorkerEvent, stage: Seq<char>, percent: Option<u8>) -> bool {
    e matches WorkerEvent::Progress { stage: s, percent: p, .. } && s@ == stage && p == percent
}

/// The two events a failed run reports: the persisted error state, then the
/// terminal error.
pub open spec fn is_failure_events(evs: Seq<WorkerEvent>, msg: Seq<char>) -> bool {
    &&& evs.len() == 2
    &&& is_state_event(evs[0], "error"@, msg, None, None)
    &&& (evs[1] matches WorkerEvent::Error { message } && message@ == msg)
}

/// The step relation of the provisioning run.
pub open spec fn prepare_ok(
    p: PreparePhase,
    voxtral: bool,
    ok: bool,
    err: Seq<char>,
    p2: PreparePhase,
    evs: Seq<WorkerEvent>,
) -> bool {
    if p == PreparePhase::Completed || p == PreparePhase::Failed {
        p2 == p && evs.len() == 0
    } else if !ok {
        p2 == PreparePhase::Failed && is_failure_events(evs, err)
    } else {
        match p {
            PreparePhase::Starting => p2 == PreparePhase::CheckingEngine && evs.len() == 2
                && is_progress_event(evs[0], "prepare"@, Some(5)) && is_state_event(
                evs[1],
                "preparing"@,
                ""@,
                None,
                None,
            ),
            PreparePhase::CheckingEngine => p2 == PreparePhase::EnsuringImage && evs.len() == 1
                && is_progress_event(evs[0], "install"@, Some(35)),
            PreparePhase::EnsuringImage => if voxtral {
                p2 == PreparePhase::Completed && evs.len() == 3 && is_state_event(
                    evs[0],
                    "ready"@,
                    ""@,
                    Some(true),
                    Some(true),
                ) && is_progress_event(evs[1], "done"@, Some(100)) && (evs[2]
                    matches WorkerEvent::Done { message } && message@
                    == "Voxtral prepare completed"@)
            } else {
                p2 == PreparePhase::DownloadingModel && evs.len() == 2 && is_state_event(
                    evs[0],
                    "downloading"@,
                    ""@,
                    None,
                    None,
                ) && is_progress_event(evs[1], "download"@, Some(60))
            },
            PreparePhase::DownloadingModel => p2 == PreparePhase::StartingService && evs.len() == 2
                && is_state_event(evs[0], "validating"@, ""@, Some(true), None)
                && is_progress_event(evs[1], "verify"@, Some(85)),
            PreparePhase::StartingService => p2 == PreparePhase::Completed && evs.len() == 3
                && is_state_event(evs[0], "ready"@, ""@, Some(true), Some(true))
                && is_progress_event(evs[1], "done"@, Some(100)) && (evs[2]
                matches WorkerEvent::Done { message } && message@
                == "SenseVoice prepare completed"@),
            _ => false,
        }
    }
}

/// One provisioning run.
#[derive(Debug, Clone, PartialEq)]
pub struct PrepareMachine {
    pub phase: PreparePhase,
    pub voxtral: bool,
}

impl PrepareMachine {
    /// A fresh run for the normalized variant.
    pub fn new(voxtral: bool) -> (r: Self)
        ensures
            r.phase == PreparePhase::Starting,
            r.voxtral == voxtral,
    {
        PrepareMachine { phase: PreparePhase::Starting, voxtral }
    }

    /// Advances one stage: `ok` reports whether the driver's previous
    /// command succeeded, `err` carries its message when it did not. The
    /// returned events are printed, one JSON line each, in order.
    pub fn step(&mut self, ok: bool, err: String) -> (evs: Vec<WorkerEvent>)
        ensures
            prepare_ok(old(self).phase, old(self).voxtral, ok, err@, final(self).phase, evs@),
            final(self).voxtral == old(self).voxtral,
    {
        proof {
            reveal_strlit("");
        }
        let mut evs: Vec<WorkerEvent> = Vec::new();
        if self.phase == PreparePhase::Completed || self.phase == PreparePhase::Failed {
            return evs;
        }
        if !ok {
            self.phase = PreparePhase::Failed;
            evs.push(
                WorkerEvent::State {
                    download_state: String::from_str("error"),
                    last_error: err.clone(),
                    installed: None,
                    enabled: None,
                },
            );
            evs.push(WorkerEvent::Error { message: err });
            proof {
                assert(evs@.len() == 2);
                assert(is_state_event(evs@[0], "error"@, err@, None, None));
            }
            return evs;
        }
        match self.phase {
            PreparePhase::Starting => {
                self.phase = PreparePhase::CheckingEngine;
                evs.push(
                    WorkerEvent::Progress {
                        stage: String::from_str("prepare"),
                        message: String::from_str("Preparing runtime"),
                        percent: Some(5),
                        detail: None,
                    },
                );
                evs.push(
                    WorkerEvent::State {
                        download_state: String::from_str("preparing"),
                        last_error: String::from_str(""),
                        installed: None,
                        enabled: None,
                    },
                );
                proof {
                    assert(evs@.len() == 2);
                    assert(is_progress_event(evs@[0], "prepare"@, Some(5u8)));
                    assert(is_state_event(evs@[1], "preparing"@, ""@, None, None));
                }
            },
            PreparePhase::CheckingEngine => {
                self.phase = PreparePhase::EnsuringImage;
                let message = if self.voxtral {
                    String::from_str("Pulling Voxtral Docker image")
                } else {
                    String::from_str("Building Docker image")
                };
                evs.push(
                    WorkerEvent::Progress {
                        stage: String::from_str("install"),
                        message,
                        percent: Some(35),
                        detail: None,
                    },
                );
                proof {
                    assert(evs@.len() == 1);
                    assert(is_progress_event(evs@[0], "install"@, Some(35u8)));
                }
            },
            PreparePhase::EnsuringImage => {
                if self.voxtral {
                    self.phase = PreparePhase::Completed;
                    evs.push(
                        WorkerEvent::State {
                            download_state: String::from_str("ready"),
                            last_error: String::from_str(""),
                            installed: Some(true),
                            enabled: Some(true),
                        },
                    );
                    evs.push(
                        WorkerEvent::Progress {
                            stage: String::from_str("done"),
                            message: String::from_str("Voxtral runtime prepared"),
                            percent: Some(100),
                            detail: None,
                        },
                    );
                    evs.push(
                        WorkerEvent::Done {
                            message: String::from_str("Voxtral prepare completed"),
                        },
                    );
                    proof {
                        assert(evs@.len() == 3);
                        assert(is_state_event(evs@[0], "ready"@, ""@, Some(true), Some(true)));
                        assert(is_progress_event(evs@[1], "done"@, Some(100u8)));
                    }
                } else {
                    self.phase = PreparePhase::DownloadingModel;
                    evs.push(
                        WorkerEvent::State {
                            download_state: String::from_str("downloading"),
                            last_error: String::from_str(""),
                            installed: None,
                            enabled: None,
                        },
                    );
                    evs.push(
                        WorkerEvent::Progress {
                            stage: String::from_str("download"),
                            message: String::from_str("Downloading SenseVoice model"),
                            percent: Some(60),
                            detail: None,
                        },
                    );
                    proof {
                        assert(evs@.len() == 2);
                        assert(is_state_event(evs@[0], "downloading"@, ""@, None, None));
                        assert(is_progress_event(evs@[1], "download"@, Some(60u8)));
                    }
                }
            },
            PreparePhase::DownloadingModel => {
                self.phase = PreparePhase::StartingService;
                evs.push(
                    WorkerEvent::State {
                        download_state: String::from_str("validating"),
                        last_error: String::from_str(""),
                        installed: Some(true),
                        enabled: None,
                    },
                );
                evs.push(
                    WorkerEvent::Progress {
                        stage: String::from_str("verify"),
                        message: String::from_str("Starting SenseVoice service"),
                        percent: Some(85),
                        detail: None,
                    },
                );
                proof {
                    assert(evs@.len() == 2);
                    assert(is_state_event(evs@[0], "validating"@, ""@, Some(true), None));
                    assert(is_progress_event(evs@[1], "verify"@, Some(85u8)));
                }
            },
            PreparePhase::StartingService => {
                self.phase = PreparePhase::Completed;
                evs.push(
                    WorkerEvent::State {
                        download_state: String::from_str("ready"),
                        last_error: String::from_str(""),
                        installed: Some(true),
                        enabled: Some(true),
                    },
                );
                evs.push(
                    WorkerEvent::Progress {
                        stage: String::from_str("done"),
                        message: String::from_str("SenseVoice service started"),
                        percent: Some(100),
                        detail: None,
                    },
                );
                evs.push(
                    WorkerEvent::Done {
                        message: String::from_str("SenseVoice prepare completed"),
                    },
                );
                proof {
                    assert(evs@.len() == 3);
                    assert(is_state_event(evs@[0], "ready"@, ""@, Some(true), Some(true)));
                    assert(is_progress_event(evs@[1], "done"@, Some(100u8)));
                }
            },
            _ => {},
        }
        evs
    }

    /// The streamed-output event for one raw build, pull or download line:
    /// the stage's progress event with the normalized line as detail, or
    /// nothing when the line normalizes to nothing or the run is not in a
    /// streaming stage.
    pub fn line_event(&self, raw: &str) -> (r: Option<WorkerEvent>)
        ensures
            ({
                let detail = crate::text::normalize_log_line_spec(raw@);
                if detail.len() == 0 || !(self.phase == PreparePhase::EnsuringImage || self.phase
                    == PreparePhase::DownloadingModel) {
                    r is None
                } else {
                    r matches Some(e) && (e matches WorkerEvent::Progress {
                        stage,
                        percent,
                        detail: d,
                        ..
                    } && (self.phase == PreparePhase::EnsuringImage ==> stage@ == "install"@
                        && percent == Some(35u8)) && (self.phase == PreparePhase::DownloadingModel
                        ==> stage@ == "download"@ && percent == Some(60u8)) && (d matches Some(ds)
                        && ds@ == detail))
                }
            }),
    {
        if !(self.phase == PreparePhase::EnsuringImage || self.phase
            == PreparePhase::DownloadingModel) {
            return None;
        }
        let detail = crate::text::normalize_log_line(raw);
        if detail.as_str().unicode_len() == 0 {
            proof {
                assert(detail@.len() == 0);
            }
            return None;
        }
        if self.phase == PreparePhase::EnsuringImage {
            let message = if self.voxtral {
                String::from_str("Pulling Voxtral Docker image")
            } else {
                String::from_str("Building Docker image")
            };
            Some(
                WorkerEvent::Progress {
                    stage: String::from_str("install"),
                    message,
                    percent: Some(35),
                    detail: Some(detail),
                },
            )
        } else {
            Some(
                WorkerEvent::Progress {
                    stage: String::from_str("download"),
                    message: String::from_str("Downloading SenseVoice model"),
                    percent: Some(60),
                    detail: Some(detail),
                },
            )
        }
    }
}

/// One poll of the worker's own health wait: ready needs an explicit `ready`
/// of `true` in a successful health answer.
#[derive(Debug, Clone, PartialEq)]
pub enum WaitHealth {
    Ready,
    Wait,
    Fail(String),
}

/// Decides one iteration of the worker's health wait: a dead container or an
/// uninspectable one fails with the log tail, readiness needs the health
/// body's own say-so, and the budget running out fails with the tail.
pub fn wait_health_step(
    container: ContainerProbe,
    http_success: bool,
    ready_field: Option<bool>,
    timed_out: bool,
    timeout_secs: u64,
    tail: &str,
) -> (r: WaitHealth)
    ensures
        ({
            match container {
                ContainerProbe::Exited => r matches WaitHealth::Fail(m) && m@
                    == "SenseVoice 服务容器已退出。最近日志: "@ + tail@,
                ContainerProbe::Unknown(e) => r matches WaitHealth::Fail(m) && m@
                    == "读取服务容器状态失败: "@ + e@,
                ContainerProbe::Running => {
                    let ready = http_success && ready_field == Some(true);
                    if ready {
                        r == WaitHealth::Ready
                    } else if timed_out {
                        r matches WaitHealth::Fail(m) && m@ == "SenseVoice 服务启动超时（"@
                            + crate::codec::dec_chars(timeout_secs as nat) + " 秒）。最近日志: "@
                            + tail@
                    } else {
                        r == WaitHealth::Wait
                    }
                },
            }
        }),
{
    match container {
        ContainerProbe::Exited => {
            let mut m = String::from_str("SenseVoice 服务容器已退出。最近日志: ");
            m.append(tail);
            WaitHealth::Fail(m)
        },
        ContainerProbe::Unknown(e) => {
            let mut m = String::from_str("读取服务容器状态失败: ");
            m.append(e.as_str());
            WaitHealth::Fail(m)
        },
        ContainerProbe::Running => {
            let ready = http_success && matches!(ready_field, Some(true));
            if ready {
                WaitHealth::Ready
            } else if timed_out {
                let mut m = String::from_str("SenseVoice 服务启动超时（");
                let mut digits: Vec<char> = Vec::new();
                crate::codec::push_dec_u64(&mut digits, timeout_secs);
                let digits_s = chars_to_string(&digits);
                m.append(digits_s.as_str());
                m.append(" 秒）。最近日志: ");
                m.append(tail);
                WaitHealth::Fail(m)
            } else {
                WaitHealth::Wait
            }
        },
    }
}

/// Merges a `docker logs` call's two output streams into a diagnostic tail:
/// the trimmed, non-empty lines joined with ` || `, or a placeholder when
/// there is nothing.
pub fn docker_logs_tail_text(stdout: &str, stderr: &str) -> (r: String)
    ensures
        ({
            let kept = clean_lines_spec(stdout@ + stderr@);
            if kept.len() == 0 {
                r@ == "（无日志）"@
            } else {
                r@ == join_sep(kept, " || "@)
            }
        }),
{
    let mut merged = String::from_str(stdout);
    merged.append(stderr);
    let raw = crate::tail::split_lines(merged.as_str());
    let mut kept: Vec<String> = Vec::new();
    let mut i: usize = 0;
    while i < raw.len()
        invariant
            i <= raw@.len(),
            views_of(raw@) == crate::tail::split_lines_spec(stdout@ + stderr@),
            views_of(kept@) =~= views_of(raw@).take(i as int).map_values(
                |line: Seq<char>| trim_spec(line),
            ).filter(|line: Seq<char>| line.len() > 0),
        decreases raw@.len() - i,
    {
        let trimmed_chars = trim_chars(&string_to_chars(raw[i].as_str()));
        proof {
            reveal_with_fuel(Seq::filter, 2);
            let mapped = views_of(raw@).take(i + 1).map_values(|line: Seq<char>| trim_spec(line));
            assert(mapped.drop_last() =~= views_of(raw@).take(i as int).map_values(
                |line: Seq<char>| trim_spec(line),
            ));
            assert(mapped.last() == trim_spec(views_of(raw@)[i as int]));
            assert(views_of(raw@)[i as int] == raw@[i as int]@);
        }
        if trimmed_chars.len() > 0 {
            let trimmed = chars_to_string(&trimmed_chars);
            proof {
                assert(views_of(kept@.push(trimmed)) =~= views_of(kept@).push(trimmed@));
            }
            kept.push(trimmed);
        }
        i += 1;
    }
    proof {
        assert(views_of(raw@).take(raw@.len() as int) =~= views_of(raw@));
        assert(views_of(kept@) =~= clean_lines_spec(stdout@ + stderr@));
    }
    if kept.len() == 0 {
        proof {
            reveal_strlit("（无日志）");
        }
        return String::from_str(NO_LOGS_PLACEHOLDER);
    }
    crate::tail::join_strings(&kept, " || ")
}

/// The name a wrapper gives to the `hub` string field of the worker's state
/// file, if the file parses and has one.
pub uninterp spec fn hub_of(text: Seq<char>) -> Option<Seq<char>>;

/// Relies on serde_json: parses the state file and reads its top-level
/// `hub` field as text.
#[verifier::external_body]
fn json_hub_field(text: &str) -> (r: Option<String>)
    ensures
        match r {
            Some(h) => hub_of(text@) == Some(h@),
            None => hub_of(text@) is None,
        },
{
    let value: serde_json::Value = serde_json::from_str(text).ok()?;
    value.get("hub").and_then(|item| item.as_str()).map(str::to_string)
}

/// The model hub recorded in the worker's state file, falling back to the
/// default hub when the file has none.
pub fn read_selected_hub(state_text: &str) -> (r: String)
    ensures
        match hub_of(state_text@) {
            Some(h) => r@ == h,
            None => r@ == "hf"@,
        },
{
    match json_hub_field(state_text) {
        Some(hub) => hub,
        None => String::from_str("hf"),
    }
}

} // verus!
