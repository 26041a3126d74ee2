use vtt_keyboard_lib::actions::{Action, DownloadState};
use vtt_keyboard_lib::events::encode_event;
use vtt_keyboard_lib::facade::{
    build_worker_job, handle_worker_event, worker_line_actions, SenseVoiceError, SenseVoiceManager,
};
use vtt_keyboard_lib::monitor::{
    is_service_ready, monitor_failure_message, monitor_failure_reason, monitor_stopped_actions,
    monitor_success_actions, parse_health_ready_field, parse_vllm_models_response_ready,
    HealthMonitor, HealthSample, MonitorOutcome,
};
use vtt_keyboard_lib::settings::SenseVoiceSettings;
use vtt_keyboard_lib::startup::{
    check_start_cancelled, compose_failure_message, is_start_cancelled_error, ContainerProbe,
    StartEvent, StartPhase, StartupMachine,
};
use vtt_keyboard_lib::events::WorkerEvent;
use vtt_keyboard_lib::tail::{collect_runtime_tail, push_runtime_tail, should_retry_tail};

#[test]
fn parse_health_ready_field_returns_true() {
    assert_eq!(
        parse_health_ready_field("{\"status\":\"ok\",\"ready\":true}"),
        Some(true)
    );
}

#[test]
fn parse_health_ready_field_returns_false() {
    assert_eq!(
        parse_health_ready_field("{\"status\":\"ok\",\"ready\":false}"),
        Some(false)
    );
}

#[test]
fn parse_health_ready_field_returns_none_when_missing() {
    assert_eq!(
        parse_health_ready_field("{\"status\":\"ok\",\"loading\":true}"),
        None
    );
}

#[test]
fn parse_vllm_models_response_ready_returns_true_for_non_empty_data() {
    assert!(parse_vllm_models_response_ready(
        "{\"object\":\"list\",\"data\":[{\"id\":\"Qwen/Qwen3-ASR-1.7B\"}]}"
    ));
}

#[test]
fn parse_vllm_models_response_ready_returns_false_for_empty_data() {
    assert!(!parse_vllm_models_response_ready(
        "{\"object\":\"list\",\"data\":[]}"
    ));
}

fn installed_settings() -> SenseVoiceSettings {
    let mut s = SenseVoiceSettings::default();
    s.installed = true;
    s
}

#[test]
fn start_is_a_no_op_while_an_instance_runs() {
    let mut manager = SenseVoiceManager::new();
    manager.container_running_cache = true;
    let before_status = manager.status(false, &installed_settings());
    let (acts, result) = manager.start_service_async(false, &installed_settings());
    assert!(acts.is_empty());
    let status = result.expect("start while running must report the current status");
    assert_eq!(status, before_status);
    assert!(status.running);
    let (acts2, _) = manager.start_service_async(false, &installed_settings());
    assert!(acts2.is_empty());
}

#[test]
fn start_without_installed_config_is_a_configuration_error() {
    let mut manager = SenseVoiceManager::new();
    let settings = SenseVoiceSettings::default();
    assert_eq!(settings.download_state, "idle");
    let (acts, result) = manager.start_service_async(false, &settings);
    assert!(acts.is_empty());
    assert!(matches!(result, Err(SenseVoiceError::Config(_))));
    // Nothing was persisted, so the stored state stays idle.
    assert_eq!(settings.download_state, "idle");
    assert!(!manager.start_in_progress);
}

#[test]
fn stop_is_safe_and_terminal() {
    let mut manager = SenseVoiceManager::new();
    manager.container_running_cache = true;
    manager.prepare_active = true;
    let acts = manager.stop_service();
    assert_eq!(acts.len(), 5);
    assert_eq!(acts[0], Action::KillWorker);
    assert_eq!(acts[2], Action::RemoveManagedContainers);
    assert!(matches!(
        acts[3],
        Action::PersistState { state: DownloadState::Idle, .. }
    ));
    assert!(!manager.container_running_cache);
    assert!(!manager.prepare_active);
    let snapshot = manager.clone();
    let acts_again = manager.stop_service();
    assert_eq!(acts_again.len(), 5);
    assert_eq!(manager, snapshot);
}

#[test]
fn stop_mid_prepare_kills_the_worker_and_resets_state() {
    let mut manager = SenseVoiceManager::new();
    let job = vtt_keyboard_lib::events::WorkerJob {
        local_model: "sensevoice".to_string(),
        service_url: "http://127.0.0.1:8765".to_string(),
        model_id: "iic/SenseVoiceSmall".to_string(),
        device: "auto".to_string(),
        runtime_dir: "runtime".to_string(),
        models_dir: "models".to_string(),
        state_file: "state.json".to_string(),
        image_tag: "vtt-sensevoice:local".to_string(),
        container_name: "vtt-sensevoice-service".to_string(),
    };
    let (acts, _status) = manager.prepare_async(false, &installed_settings(), job);
    assert!(manager.prepare_active);
    assert!(acts.iter().any(|a| matches!(a, Action::SpawnWorker { .. })));
    let stop_acts = manager.stop_service();
    assert!(!manager.prepare_active);
    assert_eq!(stop_acts[0], Action::KillWorker);
    assert!(stop_acts.iter().any(|a| *a == Action::RemoveManagedContainers));
    assert!(stop_acts.iter().any(|a| matches!(
        a,
        Action::PersistState { state: DownloadState::Idle, .. }
    )));
}

#[test]
fn cancellation_cleans_up_and_persists_idle() {
    let mut machine = StartupMachine::new(90);
    let acts = machine.step(false, StartEvent::ConfigLoaded { installed: true });
    assert!(acts.is_empty());
    // Cancellation observed before the next step completes.
    let acts = machine.step(
        true,
        StartEvent::EngineChecked {
            cli_ok: true,
            cli_detail: String::new(),
            daemon_ok: true,
            daemon_detail: String::new(),
        },
    );
    assert_eq!(machine.phase, StartPhase::Cancelled);
    assert!(matches!(
        acts[0],
        Action::PersistState { state: DownloadState::Idle, .. }
    ));
    assert_eq!(acts[2], Action::RemoveManagedContainers);
    assert!(!acts.iter().any(|a| *a == Action::LaunchContainer));
    // Terminal: later events change nothing.
    let more = machine.step(false, StartEvent::ConfigLoaded { installed: true });
    assert!(more.is_empty());
    assert_eq!(machine.phase, StartPhase::Cancelled);
}

#[test]
fn happy_startup_reaches_monitoring_and_readiness() {
    let mut machine = StartupMachine::new(90);
    machine.step(false, StartEvent::ConfigLoaded { installed: true });
    machine.step(
        false,
        StartEvent::EngineChecked {
            cli_ok: true,
            cli_detail: String::new(),
            daemon_ok: true,
            daemon_detail: String::new(),
        },
    );
    let launch_acts = machine.step(
        false,
        StartEvent::ImageEnsured { ok: true, detail: String::new(), tail: String::new() },
    );
    assert_eq!(launch_acts[0], Action::RemoveManagedContainers);
    assert_eq!(launch_acts[1], Action::LaunchContainer);
    machine.step(
        false,
        StartEvent::Launched { ok: true, detail: String::new(), tail: String::new() },
    );
    let reach_acts = machine.step(
        false,
        StartEvent::Poll {
            container: ContainerProbe::Running,
            reachable: true,
            timed_out: false,
            tail: String::new(),
        },
    );
    assert_eq!(machine.phase, StartPhase::Monitoring);
    assert!(matches!(
        reach_acts[0],
        Action::PersistState { state: DownloadState::Running, .. }
    ));
    assert_eq!(reach_acts[2], Action::StartMonitor);
    // The monitor then sees a ready health body on the first poll.
    let mut monitor = HealthMonitor::new(false);
    let tick = monitor.step(
        false,
        ContainerProbe::Running,
        Some(HealthSample { success: true, ready_field: Some(true), models_ready: false }),
        1000,
        5000,
    );
    assert_eq!(tick.outcome, MonitorOutcome::Ready);
    assert!(monitor.finished);
}

#[test]
fn container_exit_during_monitoring_reports_the_tail() {
    let mut monitor = HealthMonitor::new(false);
    let warming =
        Some(HealthSample { success: true, ready_field: Some(false), models_ready: false });
    for _ in 0..3 {
        let tick = monitor.step(false, ContainerProbe::Running, warming.clone(), 2000, 0);
        assert_eq!(tick.outcome, MonitorOutcome::Continue);
    }
    let tick = monitor.step(false, ContainerProbe::Exited, warming, 5000, 0);
    assert_eq!(tick.outcome, MonitorOutcome::ContainerExited);
    let reason = monitor_failure_reason(&tick.outcome).expect("an exit has a failure reason");
    let mut ring: Vec<String> = Vec::new();
    push_runtime_tail(&mut ring, "[stdout] loading model".to_string(), 200);
    push_runtime_tail(&mut ring, "[stderr] CUDA out of memory".to_string(), 200);
    let tail = collect_runtime_tail(&ring, 30, "");
    let message = monitor_failure_message(&reason, &tail);
    assert_eq!(
        message,
        "SenseVoice 服务容器已退出。最近日志: [stdout] loading model || [stderr] CUDA out of memory"
    );
    assert!(message.contains("CUDA out of memory"));
    let acts = vtt_keyboard_lib::monitor::monitor_failure_actions(message);
    assert_eq!(acts[0], Action::SetRunningCache { value: false });
    assert!(matches!(
        acts[1],
        Action::PersistState { state: DownloadState::Error, .. }
    ));
    assert_eq!(acts[4], Action::RemoveManagedContainers);
}

#[test]
fn container_exit_while_awaiting_reachable_fails_with_tail() {
    let mut machine = StartupMachine::new(90);
    machine.step(false, StartEvent::ConfigLoaded { installed: true });
    machine.step(
        false,
        StartEvent::EngineChecked {
            cli_ok: true,
            cli_detail: String::new(),
            daemon_ok: true,
            daemon_detail: String::new(),
        },
    );
    machine.step(
        false,
        StartEvent::ImageEnsured { ok: true, detail: String::new(), tail: String::new() },
    );
    machine.step(
        false,
        StartEvent::Launched { ok: true, detail: String::new(), tail: String::new() },
    );
    let acts = machine.step(
        false,
        StartEvent::Poll {
            container: ContainerProbe::Exited,
            reachable: false,
            timed_out: false,
            tail: "[stderr] panic in server".to_string(),
        },
    );
    assert_eq!(machine.phase, StartPhase::Failed);
    match &acts[0] {
        Action::PersistState { state, last_error } => {
            assert_eq!(*state, DownloadState::Error);
            assert!(last_error.contains("[stderr] panic in server"));
            assert!(!last_error.is_empty());
        }
        other => panic!("expected a persisted error, got {:?}", other),
    }
    assert_eq!(acts[3], Action::RemoveManagedContainers);
}

#[test]
fn warn_notice_is_emitted_at_most_once() {
    let mut monitor = HealthMonitor::new(true);
    let warming = Some(HealthSample { success: true, ready_field: None, models_ready: false });
    let first = monitor.step(false, ContainerProbe::Running, warming.clone(), 120000, 5000);
    assert!(first.warn_now);
    let second = monitor.step(false, ContainerProbe::Running, warming.clone(), 240000, 5000);
    assert!(!second.warn_now);
    let third = monitor.step(false, ContainerProbe::Running, warming, 360000, 5000);
    assert!(!third.warn_now);
}

#[test]
fn vllm_readiness_falls_back_to_the_models_listing() {
    assert!(is_service_ready(Some(true), false, false));
    assert!(!is_service_ready(Some(false), true, true));
    assert!(is_service_ready(None, true, true));
    assert!(!is_service_ready(None, true, false));
    assert!(!is_service_ready(None, false, true));
}

#[test]
fn cancellation_marker_is_its_own_error() {
    let err = check_start_cancelled(true).unwrap_err();
    assert!(is_start_cancelled_error(&err));
    assert!(check_start_cancelled(false).is_ok());
    let other = SenseVoiceError::Process("boom".to_string());
    assert!(!is_start_cancelled_error(&other));
}

#[test]
fn worker_reports_are_dispatched_by_kind() {
    let progress = handle_worker_event(WorkerEvent::Progress {
        stage: "download".to_string(),
        message: "Downloading SenseVoice model".to_string(),
        percent: Some(60),
        detail: None,
    });
    assert!(matches!(&progress[0], Action::EmitProgress { stage, percent: Some(60), .. }
        if stage == "download"));
    let state = handle_worker_event(WorkerEvent::State {
        download_state: "validating".to_string(),
        last_error: String::new(),
        installed: Some(true),
        enabled: None,
    });
    assert!(matches!(&state[0], Action::PersistWorkerState { download_state, installed: Some(true), .. }
        if download_state == "validating"));
    let failure = handle_worker_event(WorkerEvent::Error { message: "下载失败".to_string() });
    assert_eq!(failure.len(), 2);
    assert!(matches!(&failure[0], Action::PersistWorkerState { download_state, last_error, .. }
        if download_state == "error" && last_error == "下载失败"));
    assert!(matches!(&failure[1], Action::EmitProgress { stage, .. } if stage == "error"));
    let done = handle_worker_event(WorkerEvent::Done { message: "all set".to_string() });
    assert!(matches!(&done[0], Action::EmitProgress { stage, detail: Some(d), .. }
        if stage == "done" && d == "all set"));
}

#[test]
fn finishing_an_attempt_clears_the_flight_flags() {
    let mut manager = SenseVoiceManager::new();
    manager.start_in_progress = true;
    manager.start_cancel_flag = true;
    manager.container_running_cache = true;
    manager.finish_startup();
    assert!(!manager.start_in_progress);
    assert!(!manager.start_cancel_flag);
    // Only the attempt bookkeeping is touched.
    assert!(manager.container_running_cache);
    let settings = installed_settings();
    let status = manager.status(true, &settings);
    assert!(status.running);
    manager.container_running_cache = false;
    let status = manager.status(true, &settings);
    assert!(!status.running);
}

#[test]
fn the_worker_job_is_derived_from_the_settings() {
    let mut settings = installed_settings();
    settings.local_model = "VOXTRAL".to_string();
    let job = build_worker_job(
        &settings,
        "rt".to_string(),
        "models".to_string(),
        "state.json".to_string(),
    );
    assert_eq!(job.local_model, "voxtral");
    assert_eq!(job.image_tag, "vllm/vllm-openai:nightly");
    assert_eq!(job.container_name, "vtt-sensevoice-service");
    assert_eq!(job.service_url, settings.service_url);
    settings.local_model = "sensevoice".to_string();
    let job = build_worker_job(
        &settings,
        "rt".to_string(),
        "models".to_string(),
        "state.json".to_string(),
    );
    assert_eq!(job.image_tag, "vtt-sensevoice:local");
}

#[test]
fn monitor_endings_order_their_actions() {
    let done = monitor_success_actions();
    assert!(matches!(
        &done[0],
        Action::PersistState { state: DownloadState::Ready, last_error } if last_error.is_empty()
    ));
    assert!(matches!(&done[1], Action::EmitProgress { stage, percent: Some(100), .. }
        if stage == "done"));
    let stopped = monitor_stopped_actions();
    assert_eq!(stopped[0], Action::SetRunningCache { value: false });
    assert!(matches!(&stopped[1], Action::EmitProgress { stage, .. } if stage == "stopped"));
}

#[test]
fn startup_failures_compose_the_diagnostic_tail() {
    let mut machine = StartupMachine::new(90);
    machine.step(false, StartEvent::ConfigLoaded { installed: true });
    machine.step(
        false,
        StartEvent::EngineChecked {
            cli_ok: true,
            cli_detail: String::new(),
            daemon_ok: true,
            daemon_detail: String::new(),
        },
    );
    let acts = machine.step(
        false,
        StartEvent::ImageEnsured {
            ok: false,
            detail: "构建 SenseVoice Docker 镜像失败: exit 1".to_string(),
            tail: "[stdout] no space left".to_string(),
        },
    );
    assert_eq!(machine.phase, StartPhase::Failed);
    match &acts[0] {
        Action::PersistState { state: DownloadState::Error, last_error } => {
            assert_eq!(
                last_error,
                "构建 SenseVoice Docker 镜像失败: exit 1。最近日志: [stdout] no space left"
            );
        }
        other => panic!("expected a persisted error, got {:?}", other),
    }
    // A message already carrying a tail, or an empty capture, is untouched.
    assert_eq!(
        compose_failure_message("x。最近日志: y".to_string(), "z"),
        "x。最近日志: y"
    );
    assert_eq!(compose_failure_message("x".to_string(), "（无日志）"), "x");
}

#[test]
fn tail_reads_retry_only_while_empty() {
    assert!(should_retry_tail(0, "（无日志）"));
    assert!(should_retry_tail(4, "（无日志）"));
    assert!(!should_retry_tail(5, "（无日志）"));
    assert!(!should_retry_tail(0, "[stdout] got output"));
}

#[test]
fn worker_lines_are_decoded_or_forwarded_raw() {
    let line = encode_event(&WorkerEvent::State {
        download_state: "downloading".to_string(),
        last_error: String::new(),
        installed: None,
        enabled: None,
    });
    let acts = worker_line_actions(&line, false);
    assert!(matches!(&acts[0], Action::PersistWorkerState { download_state, .. }
        if download_state == "downloading"));
    let raw = worker_line_actions("  plain build output \r", false);
    assert_eq!(raw.len(), 1);
    assert!(matches!(&raw[0], Action::EmitProgress { stage, detail: Some(d), .. }
        if stage == "prepare" && d == "plain build output"));
    let raw_err = worker_line_actions("boom", true);
    assert_eq!(raw_err.len(), 2);
    assert!(matches!(&raw_err[1], Action::EmitRuntimeLog { stream, line }
        if stream == "stderr" && line == "[worker] boom"));
    assert!(worker_line_actions("  \r\r ", true).is_empty());
}
