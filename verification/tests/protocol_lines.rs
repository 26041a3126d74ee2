use vtt_keyboard_lib::events::{
    decode_event, decode_job, encode_event, encode_job, parse_job_file_arg, WorkerEvent, WorkerJob,
};

#[test]
fn progress_event_round_trips() {
    let event = WorkerEvent::Progress {
        stage: "install".to_string(),
        message: "Building Docker image".to_string(),
        percent: Some(35),
        detail: Some("step \"3/7\"\ndone".to_string()),
    };
    let line = encode_event(&event);
    assert_eq!(decode_event(&line), Some(event));
}

#[test]
fn progress_event_without_options_round_trips() {
    let event = WorkerEvent::Progress {
        stage: "prepare".to_string(),
        message: "Preparing runtime".to_string(),
        percent: None,
        detail: None,
    };
    let line = encode_event(&event);
    assert_eq!(line, "{\"kind\":\"progress\",\"stage\":\"prepare\",\"message\":\"Preparing runtime\"}");
    assert_eq!(decode_event(&line), Some(event));
}

#[test]
fn runtime_log_event_round_trips() {
    let event = WorkerEvent::RuntimeLog {
        stream: "stderr".to_string(),
        line: "[worker] 模型下载中\\试试".to_string(),
        ts: -1234567890123,
    };
    let line = encode_event(&event);
    assert_eq!(decode_event(&line), Some(event));
}

#[test]
fn state_event_round_trips() {
    let event = WorkerEvent::State {
        download_state: "ready".to_string(),
        last_error: "".to_string(),
        installed: Some(true),
        enabled: Some(false),
    };
    let line = encode_event(&event);
    assert_eq!(decode_event(&line), Some(event));
    let partial = WorkerEvent::State {
        download_state: "error".to_string(),
        last_error: "下载 SenseVoice 模型超时".to_string(),
        installed: None,
        enabled: None,
    };
    let partial_line = encode_event(&partial);
    assert_eq!(decode_event(&partial_line), Some(partial));
}

#[test]
fn done_and_error_events_round_trip() {
    let done = WorkerEvent::Done { message: "SenseVoice prepare completed".to_string() };
    let done_line = encode_event(&done);
    assert_eq!(decode_event(&done_line), Some(done));
    let error = WorkerEvent::Error { message: "构建 SenseVoice Docker 镜像失败: \"x\"".to_string() };
    let error_line = encode_event(&error);
    assert_eq!(decode_event(&error_line), Some(error));
}

#[test]
fn control_characters_survive_the_line_codec() {
    let event = WorkerEvent::Done { message: "a\u{1}b\tc\rd\u{1f}".to_string() };
    let line = encode_event(&event);
    assert!(!line.contains('\n'));
    assert!(!line.contains('\u{1}'));
    assert_eq!(decode_event(&line), Some(event));
}

#[test]
fn malformed_lines_do_not_decode() {
    assert_eq!(decode_event(""), None);
    assert_eq!(decode_event("plain build output"), None);
    assert_eq!(decode_event("{\"kind\":\"done\",\"message\":\"x\"} "), None);
    assert_eq!(decode_event("{\"kind\":\"done\",\"message\":\"x\""), None);
    assert_eq!(decode_event("{\"kind\":\"mystery\",\"message\":\"x\"}"), None);
}

#[test]
fn job_file_argument_follows_the_flag() {
    let args: Vec<String> =
        vec!["app", "--sensevoice-worker", "--job-file", "/tmp/job.json"]
            .iter().map(|s| s.to_string()).collect();
    assert_eq!(parse_job_file_arg(&args), Some("/tmp/job.json".to_string()));
    let missing: Vec<String> = vec!["app", "--job-file"].iter().map(|s| s.to_string()).collect();
    assert_eq!(parse_job_file_arg(&missing), None);
    let none: Vec<String> = vec!["app"].iter().map(|s| s.to_string()).collect();
    assert_eq!(parse_job_file_arg(&none), None);
}

#[test]
fn job_files_round_trip() {
    let job = WorkerJob {
        local_model: "sensevoice".to_string(),
        service_url: "http://127.0.0.1:8765".to_string(),
        model_id: "iic/SenseVoiceSmall".to_string(),
        device: "auto".to_string(),
        runtime_dir: "C:\\data\\runtime".to_string(),
        models_dir: "/data/models".to_string(),
        state_file: "/data/state.json".to_string(),
        image_tag: "vtt-sensevoice:local".to_string(),
        container_name: "vtt-sensevoice-service".to_string(),
    };
    let text = encode_job(&job);
    assert_eq!(decode_job(&text), Some(job));
    assert_eq!(decode_job("{}"), None);
}
