use llama_launcher::server::{
    build_server_args, classify_log_line, detect_log_level, launch_command_line, progress_text,
    signed_decimal_string, LaunchFloats, LogBuffer, LogEntry, LogLevel, ServerCore, ServerFault,
    ServerState, MAX_LOG_LINES,
};
use llama_launcher::settings::{AppSettings, GpuLayersMode};

#[test]
fn stamped_lines_have_a_level() {
    assert_eq!(detect_log_level("0.01.234 I main: loading model"), Some(LogLevel::Info));
    assert_eq!(detect_log_level("12.34.567 W srv  warn: slow"), Some(LogLevel::Warn));
    assert_eq!(detect_log_level("1.2.3 E"), Some(LogLevel::Error));
    assert_eq!(detect_log_level("   1.2.3 I indented"), Some(LogLevel::Info));
}

#[test]
fn unstamped_lines_have_no_level() {
    assert_eq!(detect_log_level("1.2 I one dot"), None);
    assert_eq!(detect_log_level("main: loading"), None);
    assert_eq!(detect_log_level("1.2.3 X other"), None);
    assert_eq!(detect_log_level("1.2.3 Info"), None);
    assert_eq!(detect_log_level("1.2.3"), None);
    assert_eq!(detect_log_level("1.2.3 "), None);
    assert_eq!(detect_log_level("1a.2.3 I"), None);
    assert_eq!(detect_log_level(""), None);
}

#[test]
fn lines_without_a_stamp_are_classified_by_words() {
    assert_eq!(classify_log_line("something WARN here"), LogLevel::Warn);
    assert_eq!(classify_log_line("a warning"), LogLevel::Warn);
    assert_eq!(classify_log_line("fatal error"), LogLevel::Error);
    assert_eq!(classify_log_line("ERROR: bad"), LogLevel::Error);
    assert_eq!(classify_log_line("Error: capitalised"), LogLevel::Info);
    assert_eq!(classify_log_line("1.2.3 E no warn here"), LogLevel::Error);
    assert_eq!(classify_log_line("plain"), LogLevel::Info);
}

#[test]
fn progress_figure_is_cut_at_the_first_stop() {
    assert_eq!(
        progress_text("slot update: prompt processing progress = 0.54, n_tokens = 12").as_deref(),
        Some("0.54")
    );
    assert_eq!(progress_text("progress = 1.000000\nnext").as_deref(), Some("1.000000"));
    assert_eq!(progress_text("progress = 0.25\tx").as_deref(), Some("0.25"));
    assert_eq!(progress_text("progress = 0.9").as_deref(), Some("0.9"));
    assert_eq!(progress_text("progress =   0.7 y").as_deref(), Some(""));
    assert_eq!(progress_text("progress =0.5"), None);
    assert_eq!(progress_text("no figure"), None);
}

fn entry(text: &str) -> LogEntry {
    LogEntry { text: text.to_string(), level: LogLevel::Info }
}

#[test]
fn log_keeps_the_newest_lines() {
    let mut log = LogBuffer::new();
    for i in 0..(MAX_LOG_LINES + 2) {
        log.push(entry(&i.to_string()));
    }
    assert_eq!(log.len(), MAX_LOG_LINES);
    let entries = log.entries();
    assert_eq!(entries[0].text, "2");
    assert_eq!(entries[MAX_LOG_LINES - 1].text, (MAX_LOG_LINES + 1).to_string());
    log.clear();
    assert_eq!(log.len(), 0);
}

#[test]
fn log_search() {
    let mut log = LogBuffer::new();
    log.push(entry("loading"));
    assert!(!log.any_contains("listening"));
    log.push(entry("main: server is listening on http://127.0.0.1:8080"));
    assert!(log.any_contains("server is listening on"));
}

fn floats() -> LaunchFloats {
    LaunchFloats {
        ubatch_size_actual: 512,
        temperature: "0.8".to_string(),
        top_p: "0.95".to_string(),
        repeat_penalty: "1.1".to_string(),
        presence_penalty: "0".to_string(),
        spec_draft_p_min: "0.75".to_string(),
        spec_draft_p_split: "0.1".to_string(),
    }
}

fn ready() -> AppSettings {
    let mut s = AppSettings::default();
    s.server_path = "/opt/llama/llama-server".to_string();
    s.model_path = "/models/a.gguf".to_string();
    s
}

#[test]
fn default_launch_arguments() {
    let args = build_server_args(&ready(), &floats());
    let expected = vec![
        "--model", "/models/a.gguf", "--host", "127.0.0.1", "--port", "8080", "--ctx-size",
        "4096", "--parallel", "1", "--batch-size", "2048", "--ubatch-size", "512",
        "--gpu-layers", "999", "--temperature", "0.8", "--top-p", "0.95", "--top-k", "40",
        "--repeat-penalty", "1.1", "--presence-penalty", "0", "--flash-attn", "auto", "-kvo",
        "--cache-type-k", "f16", "--cache-type-v", "f16", "--split-mode", "none", "--webui",
    ];
    assert_eq!(args, expected);
}

#[test]
fn optional_launch_arguments() {
    let mut s = ready();
    s.flash_attn = String::new();
    s.mmproj_path = "/models/mmproj.gguf".to_string();
    s.dflash_path = "/models/draft.gguf".to_string();
    s.spec_type = "draft".to_string();
    s.spec_draft_n_min = 2;
    s.kv_offload = false;
    s.cache_type_k = String::new();
    s.cache_type_v = "q8_0".to_string();
    s.gpu_device = "CUDA0".to_string();
    s.gpu_layers_mode = GpuLayersMode::Manual(20);
    s.split_mode = "layer".to_string();
    s.tensor_split = "3,1".to_string();
    s.cpu_moe = true;
    s.n_cpu_moe = 4;
    s.verbose = true;
    s.offline_mode = true;
    s.rpc_mode = true;
    s.web_ui_enabled = false;
    s.top_k = -1;
    let args = build_server_args(&s, &floats());
    let tail: Vec<&str> = args[14..].iter().map(|a| a.as_str()).collect();
    assert_eq!(
        tail,
        vec![
            "--gpu-layers", "20", "--temperature", "0.8", "--top-p", "0.95", "--top-k", "-1",
            "--repeat-penalty", "1.1", "--presence-penalty", "0", "--mmproj",
            "/models/mmproj.gguf", "--model-draft", "/models/draft.gguf", "--spec-type", "draft",
            "--spec-draft-n-max", "16", "--spec-draft-n-min", "2", "--spec-draft-p-min", "0.75",
            "--spec-draft-p-split", "0.1", "-nkvo", "--cache-type-v", "q8_0", "--device",
            "CUDA0", "--tensor-split", "3,1", "--cpu-moe", "--n-cpu-moe", "4", "--verbose",
            "--offline", "--rpc", "127.0.0.1:50052", "--no-webui",
        ]
    );
}

#[test]
fn command_line_joins_with_spaces() {
    let args = vec!["--port".to_string(), "8080".to_string()];
    assert_eq!(launch_command_line("llama-server", &args), "llama-server --port 8080");
    assert_eq!(launch_command_line("llama-server", &Vec::new()), "llama-server ");
}

#[test]
fn signed_numbers() {
    assert_eq!(signed_decimal_string(0), "0");
    assert_eq!(signed_decimal_string(-40), "-40");
    assert_eq!(signed_decimal_string(i32::MIN), "-2147483648");
    assert_eq!(signed_decimal_string(i32::MAX), "2147483647");
}

#[test]
fn start_is_refused_without_server_or_model() {
    let mut core = ServerCore::new();
    assert_eq!(core.state, ServerState::Idle);
    assert!(core.begin_start(&AppSettings::default(), &floats()).is_none());
    assert_eq!(core.state, ServerState::Error(ServerFault::MissingServerOrModel));
}

#[test]
fn start_is_refused_when_ports_collide() {
    let mut core = ServerCore::new();
    let mut s = ready();
    s.rpc_port = s.port;
    assert!(core.begin_start(&s, &floats()).is_none());
    assert_eq!(core.state, ServerState::Error(ServerFault::PortConflict));
}

#[test]
fn a_server_runs_through_its_states() {
    let mut core = ServerCore::new();
    core.record_line("old line".to_string());
    let args = core.begin_start(&ready(), &floats()).unwrap();
    assert_eq!(args[0], "--model");
    assert_eq!(core.state, ServerState::Starting);
    assert_eq!(core.logs.len(), 0);
    core.spawn_succeeded("llama-server --model /models/a.gguf".to_string());
    core.poll();
    assert!(core.is_running());
    assert!(!core.is_listening());
    core.record_line("1.2.3 I main: server is listening on http://127.0.0.1:8080".to_string());
    assert!(core.is_listening());
    assert_eq!(core.logs.entries()[0].level, LogLevel::Info);
    // A running server is not started twice.
    assert!(core.begin_start(&ready(), &floats()).is_none());
    assert!(core.is_running());
    core.stop(true);
    assert_eq!(core.state, ServerState::Idle);
    assert_eq!(core.launch_command, None);
    assert_eq!(core.logs.len(), 1);
}

#[test]
fn process_exit_and_failure_are_recorded() {
    let mut core = ServerCore::new();
    core.begin_start(&ready(), &floats());
    core.spawn_failed("not found".to_string());
    assert_eq!(
        core.state,
        ServerState::Error(ServerFault::StartFailed("not found".to_string()))
    );
    core.begin_start(&ready(), &floats());
    core.spawn_succeeded("cmd".to_string());
    core.poll();
    core.record_exit("server exited".to_string());
    assert_eq!(core.state, ServerState::Idle);
    assert_eq!(core.logs.entries()[0].level, LogLevel::Warn);
    assert_eq!(core.launch_command.as_deref(), Some("cmd"));
    core.clear_logs();
    assert_eq!(core.logs.len(), 0);
    core.stop(false);
    assert_eq!(core.launch_command, None);
    assert_eq!(core.state, ServerState::Idle);
}

#[test]
fn refusals_need_no_size_arithmetic() {
    let mut huge = ready();
    huge.context = usize::MAX;
    huge.batch_size = usize::MAX;
    huge.rpc_port = huge.port;
    let mut core = ServerCore::new();
    assert!(core.begin_start(&huge, &floats()).is_none());
    assert_eq!(core.state, ServerState::Error(ServerFault::PortConflict));

    let mut running = ServerCore::new();
    running.begin_start(&ready(), &floats());
    running.spawn_succeeded("cmd".to_string());
    running.poll();
    running.record_line("line".to_string());
    let mut other = huge.clone();
    other.rpc_port = 1;
    assert!(running.begin_start(&other, &floats()).is_none());
    assert_eq!(running.state, ServerState::Running);
    assert_eq!(running.launch_command.as_deref(), Some("cmd"));
    assert_eq!(running.logs.len(), 1);
}

#[test]
fn each_report_of_the_end_is_logged() {
    let mut core = ServerCore::new();
    core.begin_start(&ready(), &floats());
    core.spawn_succeeded("cmd".to_string());
    core.poll();
    core.record_exit("Server exited".to_string());
    core.record_exit("Server exited".to_string());
    assert_eq!(core.logs.len(), 2);
    assert_eq!(core.state, ServerState::Idle);
}
