use vtt_keyboard_lib::client::{
    effective_model_id, is_warming_up_error, should_retry_warming, transcription_endpoint,
    validate_transcription_config,
};
use vtt_keyboard_lib::facade::SenseVoiceError;
use vtt_keyboard_lib::gateway::{
    bind_mount, docker_build_args, docker_inspect_running_args, docker_logs_tail_args,
    docker_rm_args, docker_stop_args, docker_version_args, exec_health_urls, exec_wget_args,
    health_url, interpret_inspect_running, interpret_rm_output, interpret_run_service_output,
    interpret_stop_output, interpret_vllm_run_output, interpret_wget_health, model_download_args,
    models_url, run_service_container_args, run_vllm_service_container_args,
    stream_failure_message, stream_step, stream_timeout_message, vllm_command, StreamDecision,
    DOCKER_BUILD_TIMEOUT_SECS, MODEL_DOWNLOAD_TIMEOUT_SECS,
};
use vtt_keyboard_lib::model::{
    default_local_model, forced_device, is_vllm_local_model, normalize_local_model,
    normalize_qwen3_asr_model_id, needs_runtime_image_build, needs_vllm_image_pull,
    resolve_vllm_model_id, runtime_container_name, runtime_image_tag, runtime_stamp,
    service_start_timeout_secs,
};
use vtt_keyboard_lib::overlay::{
    cleanup, hide_overlay, may_hide_now, should_auto_hide, show, status_display, Overlay,
    StatusType,
};
use vtt_keyboard_lib::outcome::{
    join_transcripts, processing_audio_error, processing_paste_error, AudioProcessingError,
    PasteError, ProcessingOutcome,
};
use vtt_keyboard_lib::settings::{
    default_triggers, has_exactly_one_placeholder, validate_sensevoice_settings, validate_triggers,
    SenseVoiceSettings, SettingsError, TriggerCard,
};
use vtt_keyboard_lib::tail::{collect_runtime_tail, push_runtime_tail, read_log_tail,
    is_startup_complete_line};
use vtt_keyboard_lib::text::normalize_log_line;
use vtt_keyboard_lib::urlinfo::{
    extract_port_from_url, is_ipv4_host, normalize_publish_host, parse_host_and_port,
};
use vtt_keyboard_lib::volcengine::{compute_chunk_size, ensure_config, AudioMetadata};
use vtt_keyboard_lib::worker::{
    docker_logs_tail_text, wait_health_step, PrepareMachine, PreparePhase, WaitHealth,
};
use vtt_keyboard_lib::events::WorkerEvent;
use vtt_keyboard_lib::should_restart_runtime;
use vtt_keyboard_lib::worker::read_selected_hub;
use vtt_keyboard_lib::startup::ContainerProbe;

#[test]
fn variants_resolve_to_their_images_and_budgets() {
    assert_eq!(normalize_local_model("VoxTral"), "voxtral");
    assert_eq!(normalize_local_model("QWEN3-ASR"), "qwen3-asr");
    assert_eq!(normalize_local_model("anything"), "sensevoice");
    assert!(is_vllm_local_model("voxtral"));
    assert!(!is_vllm_local_model("sensevoice"));
    assert_eq!(runtime_image_tag("voxtral"), "vllm/vllm-openai:nightly");
    assert_eq!(runtime_image_tag("sensevoice"), "vtt-sensevoice:local");
    assert_eq!(runtime_container_name("voxtral"), "vtt-sensevoice-service");
    assert_eq!(service_start_timeout_secs("sensevoice"), 90);
    assert_eq!(service_start_timeout_secs("qwen3-asr"), 300);
    assert_eq!(default_local_model(), "sensevoice");
    assert_eq!(forced_device("voxtral", "auto"), Some("cuda".to_string()));
    assert_eq!(forced_device("voxtral", "cuda"), None);
    assert_eq!(forced_device("sensevoice", "auto"), None);
}

#[test]
fn model_ids_are_normalized_against_the_allow_list() {
    assert_eq!(normalize_qwen3_asr_model_id(" Qwen/Qwen3-ASR-0.6B "), "Qwen/Qwen3-ASR-0.6B");
    assert_eq!(normalize_qwen3_asr_model_id("made-up"), "Qwen/Qwen3-ASR-1.7B");
    assert_eq!(
        resolve_vllm_model_id("voxtral", "ignored"),
        "mistralai/Voxtral-Mini-4B-Realtime-2602"
    );
    assert_eq!(resolve_vllm_model_id("qwen3-asr", "Qwen/Qwen3-ForcedAligner-0.6B"),
        "Qwen/Qwen3-ForcedAligner-0.6B");
}

#[test]
fn image_is_rebuilt_unless_present_with_matching_stamp() {
    assert!(!needs_runtime_image_build(true, " abc \n", "abc"));
    assert!(needs_runtime_image_build(true, "abc", "xyz"));
    assert!(needs_runtime_image_build(false, "abc", "abc"));
    assert!(needs_vllm_image_pull(false));
    assert!(!needs_vllm_image_pull(true));
}

#[test]
fn recipe_stamp_depends_on_the_bytes_alone() {
    let blocks = vec![b"print(1)".to_vec(), b"FROM python".to_vec()];
    let again = vec![b"print(1)".to_vec(), b"FROM python".to_vec()];
    assert_eq!(runtime_stamp(&blocks), runtime_stamp(&again));
    assert!(!runtime_stamp(&blocks).is_empty());
}

#[test]
fn engine_argument_lists_are_built_verbatim() {
    assert_eq!(docker_version_args(), vec!["version", "--format", "{{.Client.Version}}"]);
    assert_eq!(docker_build_args("vtt-sensevoice:local", "/tmp/rt"),
        vec!["build", "-t", "vtt-sensevoice:local", "/tmp/rt"]);
    assert_eq!(docker_stop_args("vtt-sensevoice-service"), vec!["stop", "vtt-sensevoice-service"]);
    assert_eq!(docker_rm_args("vtt-sensevoice-service"), vec!["rm", "-f", "vtt-sensevoice-service"]);
    assert_eq!(docker_inspect_running_args("c"),
        vec!["inspect", "-f", "{{.State.Running}}", "c"]);
    assert_eq!(docker_logs_tail_args("c", 30), vec!["logs", "--tail", "30", "c"]);
    assert_eq!(bind_mount("/m", "/models"), "type=bind,source=/m,target=/models");
}

#[test]
fn service_container_arguments_carry_the_environment() {
    let args = run_service_container_args(
        "vtt-sensevoice-service",
        "vtt-sensevoice:local",
        "127.0.0.1",
        8765,
        "/data/models",
        "iic/SenseVoiceSmall",
        "auto",
        "hf",
    );
    assert_eq!(args[3], "vtt-sensevoice-service");
    assert_eq!(args[5], "127.0.0.1:8765:8765");
    assert_eq!(args[7], "type=bind,source=/data/models,target=/models");
    assert!(args.contains(&"SENSEVOICE_MODEL_ID=iic/SenseVoiceSmall".to_string()));
    assert!(args.contains(&"SENSEVOICE_HUB=hf".to_string()));
    assert!(args.contains(&"SENSEVOICE_PORT=8765".to_string()));
    assert_eq!(args.last().unwrap(), "vtt-sensevoice:local");
}

#[test]
fn vllm_container_arguments_publish_onto_the_internal_port() {
    let args = run_vllm_service_container_args(
        "vtt-sensevoice-service",
        "vllm/vllm-openai:nightly",
        false,
        "127.0.0.1",
        8765,
        "/data/models",
        "Qwen/Qwen3-ASR-1.7B",
    );
    assert_eq!(args[9], "127.0.0.1:8765:8000");
    assert!(args.contains(&"--ipc=host".to_string()));
    assert_eq!(args[14], "/bin/bash");
    let command = args.last().unwrap();
    assert!(command.contains("vllm serve 'Qwen/Qwen3-ASR-1.7B'"));
    assert!(command.contains("--max-model-len 12288"));
    let voxtral = vllm_command(true, "it's");
    assert!(voxtral.contains("mistral-common[soundfile]"));
    assert!(voxtral.contains("it'\\''s"));
    assert!(voxtral.contains("--attention-backend TRITON_ATTN"));
}

#[test]
fn engine_outputs_are_interpreted_leniently_for_missing_containers() {
    assert!(interpret_stop_output(true, "").is_ok());
    assert!(interpret_stop_output(false, "Error: No such container: x").is_ok());
    assert!(matches!(
        interpret_stop_output(false, " daemon exploded "),
        Err(SenseVoiceError::Process(m)) if m == "停止容器失败: daemon exploded"
    ));
    assert!(interpret_rm_output(false, "No such container").is_ok());
    assert_eq!(interpret_inspect_running(true, " true \n", "").unwrap(), true);
    assert_eq!(interpret_inspect_running(true, "false", "").unwrap(), false);
    assert_eq!(interpret_inspect_running(false, "", "No such object: c").unwrap(), false);
    assert!(interpret_inspect_running(false, "", "broken").is_err());
    assert!(interpret_run_service_output(true, "", "").is_ok());
    assert!(matches!(
        interpret_run_service_output(false, "id", ""),
        Err(SenseVoiceError::Process(m)) if m == "启动 SenseVoice 容器失败: id"
    ));
    assert!(matches!(
        interpret_vllm_run_output(true, false, "", "no nvidia runtime"),
        Err(SenseVoiceError::Process(m)) if m.contains("Voxtral") && m.contains("no nvidia runtime")
    ));
}

#[test]
fn health_urls_are_derived_from_the_service_url() {
    assert_eq!(health_url("http://127.0.0.1:8765/"), "http://127.0.0.1:8765/health");
    assert_eq!(models_url("http://127.0.0.1:8765"), "http://127.0.0.1:8765/v1/models");
    assert_eq!(exec_health_urls(8765), vec![
        "http://127.0.0.1:8765/health",
        "http://127.0.0.1:8000/health",
    ]);
    assert_eq!(exec_health_urls(8000), vec!["http://127.0.0.1:8000/health"]);
    assert_eq!(exec_wget_args("c", "http://127.0.0.1:8000/health"),
        vec!["exec", "c", "wget", "-qO-", "--timeout=2", "http://127.0.0.1:8000/health"]);
    assert!(interpret_wget_health(true, "{\"ok\":true}"));
    assert!(!interpret_wget_health(false, "{\"ok\":true}"));
    assert!(!interpret_wget_health(true, ""));
}

#[test]
fn service_urls_are_parsed_and_publish_hosts_restricted() {
    let (host, port) = parse_host_and_port("http://127.0.0.1:8765").unwrap();
    assert_eq!(host, "127.0.0.1");
    assert_eq!(port, 8765);
    assert_eq!(extract_port_from_url("https://localhost"), Some(443));
    assert_eq!(extract_port_from_url("not a url"), None);
    assert_eq!(normalize_publish_host("LOCALHOST").unwrap(), "127.0.0.1");
    assert_eq!(normalize_publish_host("192.168.1.10").unwrap(), "192.168.1.10");
    assert!(normalize_publish_host("example.com").is_err());
    assert!(is_ipv4_host("10.0.0.1"));
    assert!(!is_ipv4_host("10.0.0"));
    assert!(!is_ipv4_host("10.0.0.256"));
    assert!(!is_ipv4_host("10.0.0.01"));
}

#[test]
fn settings_defaults_and_validation_match_the_rules() {
    let s = SenseVoiceSettings::default();
    assert_eq!(s.service_url, "http://127.0.0.1:8765");
    assert_eq!(s.model_id, "iic/SenseVoiceSmall");
    assert_eq!(s.download_state, "idle");
    assert!(validate_sensevoice_settings(&s).is_ok());
    let mut empty_url = s.clone();
    empty_url.service_url = "  ".to_string();
    assert!(matches!(
        validate_sensevoice_settings(&empty_url),
        Err(SettingsError::Serde(m)) if m == "SenseVoice 服务地址不能为空"
    ));
    let mut bad_scheme = s.clone();
    bad_scheme.service_url = "ftp://127.0.0.1:21".to_string();
    assert!(matches!(
        validate_sensevoice_settings(&bad_scheme),
        Err(SettingsError::Serde(m)) if m == "SenseVoice 服务地址必须使用 http 或 https"
    ));
    let mut bad_device = s.clone();
    bad_device.device = "gpu".to_string();
    assert!(matches!(
        validate_sensevoice_settings(&bad_device),
        Err(SettingsError::Serde(m)) if m == "SenseVoice 推理设备仅支持 auto/cpu/cuda"
    ));
    let mut blank_model = s;
    blank_model.model_id = " ".to_string();
    assert!(validate_sensevoice_settings(&blank_model).is_err());
}

#[test]
fn trigger_lists_must_keep_the_built_in_cards() {
    let cards = default_triggers();
    assert_eq!(cards.len(), 2);
    assert!(validate_triggers(&cards).is_ok());
    assert!(has_exactly_one_placeholder("翻译为{value}"));
    assert!(!has_exactly_one_placeholder("润色"));
    assert!(!has_exactly_one_placeholder("{value}{value}"));
    let mut missing = cards.clone();
    missing.remove(0);
    assert!(matches!(
        validate_triggers(&missing),
        Err(SettingsError::Serde(m)) if m.contains("translate")
    ));
    let mut blank_keyword = cards.clone();
    blank_keyword.push(TriggerCard {
        id: "extra".to_string(),
        title: "Extra".to_string(),
        enabled: true,
        auto_apply: false,
        locked: false,
        keyword: "  ".to_string(),
        prompt_template: "t".to_string(),
        variables: vec!["v".to_string()],
    });
    assert!(matches!(
        validate_triggers(&blank_keyword),
        Err(SettingsError::Serde(m)) if m.contains("关键字不能为空")
    ));
    let mut no_variables = cards;
    no_variables.push(TriggerCard {
        id: "extra2".to_string(),
        title: "Extra2".to_string(),
        enabled: true,
        auto_apply: false,
        locked: false,
        keyword: "改{value}".to_string(),
        prompt_template: "t".to_string(),
        variables: vec![" ".to_string()],
    });
    assert!(validate_triggers(&no_variables).is_err());
}

#[test]
fn log_lines_are_normalized_and_ringed() {
    assert_eq!(normalize_log_line("  step\r one \r\n"), "step one");
    assert_eq!(normalize_log_line("\r\r"), "");
    let mut ring: Vec<String> = Vec::new();
    push_runtime_tail(&mut ring, "a".to_string(), 2);
    push_runtime_tail(&mut ring, "b".to_string(), 2);
    push_runtime_tail(&mut ring, "c".to_string(), 2);
    assert_eq!(ring, vec!["b".to_string(), "c".to_string()]);
    assert_eq!(collect_runtime_tail(&ring, 30, ""), "b || c");
    let empty: Vec<String> = Vec::new();
    assert_eq!(collect_runtime_tail(&empty, 30, ""), "（无日志）");
    assert_eq!(collect_runtime_tail(&empty, 30, "one\n\n two \nthree"), "one || two || three");
    assert_eq!(read_log_tail("x\ny\nz", 2), "y || z");
    assert!(is_startup_complete_line("INFO: Application Startup Complete."));
    assert!(is_startup_complete_line("Uvicorn running on http://0.0.0.0:8765"));
    assert!(!is_startup_complete_line("loading weights"));
}

#[test]
fn worker_tail_merges_both_streams() {
    assert_eq!(docker_logs_tail_text("a\nb\n", " c\n"), "a || b || c");
    assert_eq!(docker_logs_tail_text("", "  \n"), "（无日志）");
}

#[test]
fn prepare_machine_walks_the_build_plan() {
    let mut machine = PrepareMachine::new(false);
    let evs = machine.step(true, String::new());
    assert_eq!(evs.len(), 2);
    assert!(matches!(&evs[1], WorkerEvent::State { download_state, .. } if download_state == "preparing"));
    machine.step(true, String::new());
    assert_eq!(machine.phase, PreparePhase::EnsuringImage);
    let line = machine.line_event("  pulling layer \r");
    assert!(matches!(&line, Some(WorkerEvent::Progress { stage, detail: Some(d), .. })
        if stage == "install" && d == "pulling layer"));
    let evs = machine.step(true, String::new());
    assert!(matches!(&evs[0], WorkerEvent::State { download_state, .. } if download_state == "downloading"));
    machine.step(true, String::new());
    let done = machine.step(true, String::new());
    assert_eq!(machine.phase, PreparePhase::Completed);
    assert!(matches!(&done[2], WorkerEvent::Done { message } if message == "SenseVoice prepare completed"));
}

#[test]
fn prepare_machine_pull_variant_finishes_after_the_image() {
    let mut machine = PrepareMachine::new(true);
    machine.step(true, String::new());
    machine.step(true, String::new());
    let evs = machine.step(true, String::new());
    assert_eq!(machine.phase, PreparePhase::Completed);
    assert!(matches!(&evs[0], WorkerEvent::State { download_state, installed, enabled, .. }
        if download_state == "ready" && *installed == Some(true) && *enabled == Some(true)));
    assert!(matches!(&evs[2], WorkerEvent::Done { message } if message == "Voxtral prepare completed"));
}

#[test]
fn prepare_machine_failure_reports_state_then_error() {
    let mut machine = PrepareMachine::new(false);
    machine.step(true, String::new());
    let evs = machine.step(false, "Docker daemon 未运行".to_string());
    assert_eq!(machine.phase, PreparePhase::Failed);
    assert!(matches!(&evs[0], WorkerEvent::State { download_state, last_error, .. }
        if download_state == "error" && last_error == "Docker daemon 未运行"));
    assert!(matches!(&evs[1], WorkerEvent::Error { message } if message == "Docker daemon 未运行"));
}

#[test]
fn wait_health_decides_like_the_worker() {
    assert_eq!(
        wait_health_step(ContainerProbe::Running, true, Some(true), false, 90, ""),
        WaitHealth::Ready
    );
    assert_eq!(
        wait_health_step(ContainerProbe::Running, true, Some(false), false, 90, ""),
        WaitHealth::Wait
    );
    assert!(matches!(
        wait_health_step(ContainerProbe::Exited, false, None, false, 90, "boom"),
        WaitHealth::Fail(m) if m == "SenseVoice 服务容器已退出。最近日志: boom"
    ));
    assert!(matches!(
        wait_health_step(ContainerProbe::Running, false, None, true, 90, "slow"),
        WaitHealth::Fail(m) if m == "SenseVoice 服务启动超时（90 秒）。最近日志: slow"
    ));
}

#[test]
fn transcription_client_rules_match_the_service() {
    assert!(is_warming_up_error("Model is WARMING up"));
    assert!(is_warming_up_error("正在预热中"));
    assert!(!is_warming_up_error("out of memory"));
    assert!(should_retry_warming(0, 503, "loading"));
    assert!(!should_retry_warming(1, 503, "loading"));
    assert!(!should_retry_warming(0, 500, "loading"));
    assert_eq!(transcription_endpoint("sensevoice"), "/api/v1/asr");
    assert_eq!(transcription_endpoint("voxtral"), "/v1/audio/transcriptions");
    assert_eq!(effective_model_id("voxtral", "  "), "mistralai/Voxtral-Mini-4B-Realtime-2602");
    assert_eq!(effective_model_id("qwen3-asr", " my/model "), "my/model");
    let mut s = SenseVoiceSettings::default();
    assert!(matches!(
        validate_transcription_config(&s),
        Err(SenseVoiceError::Config(m)) if m == "SenseVoice 尚未启用，请先下载并启用"
    ));
    s.enabled = true;
    assert!(matches!(
        validate_transcription_config(&s),
        Err(SenseVoiceError::Config(m)) if m == "SenseVoice 尚未安装，请先下载模型"
    ));
    s.installed = true;
    assert!(validate_transcription_config(&s).is_ok());
}

#[test]
fn remote_recognizer_chunks_a_tenth_of_a_second() {
    assert_eq!(compute_chunk_size(None), 3200);
    assert_eq!(
        compute_chunk_size(Some(AudioMetadata {
            sample_rate: 16000,
            channels: 1,
            bits_per_sample: 16,
        })),
        3200
    );
    assert_eq!(
        compute_chunk_size(Some(AudioMetadata {
            sample_rate: 0,
            channels: 1,
            bits_per_sample: 16,
        })),
        3200
    );
    assert!(ensure_config(" ", "t").is_err());
    assert!(ensure_config("id", " ").is_err());
    assert!(ensure_config("id", "t").is_ok());
}

#[test]
fn overlay_statuses_hide_only_when_current() {
    let mut overlay = Overlay::new();
    let (status, text) = status_display("recording").unwrap();
    assert_eq!(status, StatusType::Recording);
    assert_eq!(text, "正在录音");
    assert!(status_display("unknown").is_none());
    let first = show(&mut overlay, StatusType::Completed, text);
    assert!(should_auto_hide(StatusType::Completed));
    assert!(!should_auto_hide(StatusType::Recording));
    let second = show(&mut overlay, StatusType::Recording, "正在录音".to_string());
    assert!(!may_hide_now(first, second));
    assert!(may_hide_now(second, second));
    hide_overlay(&mut overlay);
    assert!(!overlay.visible);
    cleanup(&mut overlay);
    assert_eq!(overlay.shown_count, 0);
}

#[test]
fn processing_outcomes_carry_their_error_texts() {
    let ok = ProcessingOutcome::success(
        true,
        "你好".to_string(),
        "你好".to_string(),
        false,
        false,
        Vec::new(),
    );
    assert!(ok.is_success());
    let audio = processing_audio_error(true, &AudioProcessingError::Io("disk full".to_string()));
    assert!(!audio.is_success());
    assert_eq!(
        audio.error_message.as_deref(),
        Some("录音分段失败: 无法写入录音文件: disk full")
    );
    let paste = processing_paste_error(
        false,
        "raw",
        "final",
        true,
        true,
        Vec::new(),
        &PasteError::Clipboard("denied".to_string()),
    );
    assert_eq!(
        paste.error_message.as_deref(),
        Some("写入剪贴板失败: 剪贴板写入失败: denied")
    );
    assert_eq!(paste.final_text, "final");
    let parts = vec!["第一段".to_string(), "第二段".to_string()];
    assert_eq!(join_transcripts(&parts), "第一段 第二段");
}

#[test]
fn variant_switches_restart_only_live_runtimes() {
    assert!(should_restart_runtime("sensevoice", "Voxtral", true));
    assert!(!should_restart_runtime("sensevoice", "voxtral", false));
    assert!(!should_restart_runtime("qwen3-asr", "sensevoice", true));
    assert!(!should_restart_runtime("VOXTRAL", "voxtral", true));
}

#[test]
fn the_state_file_selects_the_hub() {
    assert_eq!(read_selected_hub("{\"hub\":\"ms\"}"), "ms");
    assert_eq!(read_selected_hub("{}"), "hf");
    assert_eq!(read_selected_hub("not json"), "hf");
}

#[test]
fn streamed_commands_keep_their_budgets() {
    assert_eq!(DOCKER_BUILD_TIMEOUT_SECS, 2400);
    assert_eq!(MODEL_DOWNLOAD_TIMEOUT_SECS, 3600);
    assert_eq!(stream_step(10, 2400, None), StreamDecision::KeepReading);
    assert_eq!(stream_step(2401, 2400, None), StreamDecision::KillAndFail);
    assert_eq!(stream_step(10, 2400, Some(true)), StreamDecision::Finished);
    assert_eq!(stream_step(10, 2400, Some(false)), StreamDecision::FinishedFailed);
    let tail = vec!["step 1".to_string(), "step 2".to_string()];
    assert_eq!(
        stream_timeout_message("构建 SenseVoice Docker 镜像", 2400, &tail),
        "构建 SenseVoice Docker 镜像超时（2400 秒），请检查网络或重试。最近日志: step 1 || step 2"
    );
    assert_eq!(
        stream_failure_message("下载 SenseVoice 模型", &tail),
        "下载 SenseVoice 模型失败: step 1 || step 2"
    );
    let args = model_download_args("vtt-sensevoice:local", "/m", "/rt", "iic/SenseVoiceSmall", "auto");
    assert_eq!(args[0], "run");
    assert_eq!(args[1], "--rm");
    assert_eq!(args[3], "type=bind,source=/m,target=/models");
    assert_eq!(args[5], "type=bind,source=/rt,target=/state");
    assert!(args.contains(&"prepare.py".to_string()));
    assert!(args.contains(&"hf,ms".to_string()));
    assert_eq!(args.last().unwrap(), "/state/state.json");
}
