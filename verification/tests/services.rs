use std::collections::HashMap;

use shiori_folio::daemon::{daemon_step, DaemonAction, DaemonEvent, DaemonOutcome, DaemonPhase};
use shiori_folio::model_switch::{
    commit_report, missing_model_message, rollback_report, switch_decision, vram_growth_mb,
    NewModelStart, SwitchDecision,
};
use shiori_folio::model_list::{is_model_extension, sort_names};
use shiori_folio::paths::Platform;
use shiori_folio::services::{
    bytes_to_mb, disk_counter_deltas, embedding_server_args, extended_path,
    health_ok, llm_server_args, parse_daemon_pid, parse_gpu_info, parse_ragas_history,
    parse_vram_map, rag_python_exe, rag_server_args, select_storage_disk,
    server_launch, service_list, service_url, vram_of, whisper_server_args, PassiveRecallStatsDto,
    ProcessReading, ServiceStatus, WHISPER_PROMPT,
};
use shiori_folio::speech::{
    piper_args, piper_exe, piper_failure_message, tts_output_filename, VoiceArgs,
};

fn v(parts: &[&str]) -> Vec<String> {
    parts.iter().map(|s| s.to_string()).collect()
}

#[test]
fn server_arguments_with_defaults_and_overrides() {
    assert_eq!(
        llm_server_args(8080, None, None),
        v(&["--port", "8080", "--host", "127.0.0.1", "--n-gpu-layers", "999", "--ctx-size", "8192", "--jinja"])
    );
    assert_eq!(
        llm_server_args(1, Some(4096), Some(20)),
        v(&["--port", "1", "--host", "127.0.0.1", "--n-gpu-layers", "20", "--ctx-size", "4096", "--jinja"])
    );
    assert_eq!(
        embedding_server_args(8081, None),
        v(&[
            "--port", "8081", "--host", "127.0.0.1", "--n-gpu-layers", "0", "--embedding",
            "--ubatch-size", "2048", "--ctx-size", "2048", "--parallel", "1"
        ])
    );
    assert_eq!(
        rag_server_args(8000),
        v(&["-m", "uvicorn", "app:app", "--port", "8000", "--host", "127.0.0.1"])
    );
    assert_eq!(
        whisper_server_args(8090),
        v(&[
            "--port", "8090", "--host", "127.0.0.1", "--language", "ja", "--prompt", WHISPER_PROMPT,
            "--carry-initial-prompt"
        ])
    );
}

#[test]
fn server_launch_runs_in_the_model_folder() {
    let (dir, args) = server_launch(&v(&["", "m", "llm", "q.gguf"]), v(&["--jinja"]));
    assert_eq!(dir, v(&["", "m", "llm"]));
    assert_eq!(args, v(&["--model", "q.gguf", "--jinja"]));
    let (dir, args) = server_launch(&v(&["q.gguf"]), vec![]);
    assert!(dir.is_empty());
    assert_eq!(args, v(&["--model", "q.gguf"]));
}

#[test]
fn service_status_constructors() {
    let s = ServiceStatus::running("embedding", 8081);
    assert!(s.started && s.healthy && s.error.is_none());
    let s = ServiceStatus::spawned("llm", 8080, false);
    assert!(s.started && !s.healthy);
    let s = ServiceStatus::failed("rag", 8000, "boom".to_string());
    assert!(!s.started && !s.healthy);
    assert_eq!(s.error, Some("boom".to_string()));
    assert_eq!(s.name, "rag");
}

#[test]
fn paths_urls_and_health() {
    assert_eq!(extended_path("/usr/bin", Platform::Linux, Some("/x/libs"), Some("/cuda")), "/x/libs:/usr/bin");
    assert_eq!(extended_path("C:\\w", Platform::Windows, None, Some("C:\\cuda")), "C:\\cuda;C:\\w");
    assert_eq!(extended_path("/usr/bin", Platform::Mac, None, None), "/usr/bin");
    assert_eq!(service_url(8000, "/health"), "http://127.0.0.1:8000/health");
    assert!(health_ok(200) && health_ok(404) && !health_ok(500) && !health_ok(503));
    assert_eq!(parse_daemon_pid(" 1234\n"), Some(1234));
    assert_eq!(parse_daemon_pid("abc"), None);
    assert_eq!(parse_daemon_pid("99999999999"), None);
    assert_eq!(
        rag_python_exe(&v(&["r"]), Platform::Windows, true),
        v(&["r", "bin", "win", "rag-venv", "python.exe"])
    );
    assert_eq!(
        rag_python_exe(&v(&["r"]), Platform::Linux, false),
        v(&["r", "services", "rag", ".venv", "bin", "python"])
    );
}

#[test]
fn nvidia_smi_readings() {
    let g = parse_gpu_info("NVIDIA GeForce RTX 4070, 5120, 12282, 47\n").unwrap();
    assert_eq!(g.name, "NVIDIA GeForce RTX 4070");
    assert_eq!((g.vram_used_mb, g.vram_total_mb, g.temperature_c), (5120, 12282, Some(47)));
    let g = parse_gpu_info("GPU, 1, 2, [N/A]").unwrap();
    assert_eq!(g.temperature_c, None);
    assert!(parse_gpu_info("GPU, [N/A], 2").is_none());
    assert!(parse_gpu_info("").is_none());
    let m = parse_vram_map("1200, 300\n1300, [N/A]\n1200, 350\n");
    assert_eq!(m.len(), 1);
    assert_eq!(m.get(&1200), Some(&350));
    assert_eq!(vram_of(&m, Some(1200)), Some(350));
    assert_eq!(vram_of(&m, Some(1)), None);
    assert_eq!(vram_of(&m, None), None);
}

#[test]
fn ragas_history_table() {
    let h = parse_ragas_history("tag,date,score\nv1,2026-01-01,0.5\n\nv2,2026-02-01,0.7\n");
    assert_eq!(h.headers, v(&["tag", "date", "score"]));
    assert_eq!(h.rows, vec![v(&["v1", "2026-01-01", "0.5"]), v(&["v2", "2026-02-01", "0.7"])]);
    let h = parse_ragas_history("");
    assert!(h.headers.is_empty() && h.rows.is_empty());
}

#[test]
fn storage_disk_and_counters() {
    assert_eq!(select_storage_disk(&[true, true, false], &[1, 3, 9]), Some(1));
    assert_eq!(select_storage_disk(&[true, true], &[3, 3]), Some(1));
    assert_eq!(select_storage_disk(&[false, false], &[1, 2]), None);
    assert_eq!(disk_counter_deltas(None, (5, 6)), None);
    assert_eq!(disk_counter_deltas(Some((10, 20)), (15, 18)), Some((5, 0)));
    assert_eq!(bytes_to_mb(3 * 1024 * 1024 + 5), 3);
}

#[test]
fn control_panel_service_list() {
    let mut vram = HashMap::new();
    vram.insert(7u32, 512u64);
    vram.insert(9u32, 64u64);
    let llm = ProcessReading { pid: Some(5), running: true, ram_mb: Some(100) };
    let emb = ProcessReading { pid: Some(7), running: true, ram_mb: Some(50) };
    let rag = ProcessReading { pid: Some(9), running: true, ram_mb: Some(300) };
    let stt = ProcessReading { pid: None, running: false, ram_mb: None };
    let list = service_list(&llm, Some(6000), Some("qwen".to_string()), &emb, &rag, &stt, &vram);
    assert_eq!(list.len(), 5);
    assert_eq!(list[0].name, "llama-server (LLM)");
    assert_eq!((list[0].vram_mb, list[0].model_name.clone()), (Some(6000), Some("qwen".to_string())));
    assert_eq!(list[1].vram_mb, Some(512));
    assert_eq!(list[2].name, "uvicorn (RAG検索)");
    assert_eq!(list[2].vram_mb, None);
    assert_eq!(list[3].vram_mb, None);
    assert!(!list[3].running);
    assert_eq!(list[4].name, "piper-plus (TTS)");
    assert!(!list[4].running && list[4].ram_mb.is_none());
}

#[test]
fn passive_recall_counters() {
    let mut s = PassiveRecallStatsDto { hits: 0, total: 0 };
    s.record(true);
    s.record(false);
    assert_eq!((s.hits, s.total), (1, 2));
    let mut s = PassiveRecallStatsDto { hits: u32::MAX, total: u32::MAX };
    s.record(true);
    assert_eq!((s.hits, s.total), (0, 0));
}

#[test]
fn daemon_protocol_starts_only_under_the_lock() {
    let lock = ".shiori-rag.lock";
    let (p, a) = daemon_step(&DaemonPhase::Probing, DaemonEvent::Healthy(true), lock);
    assert!(matches!(p, DaemonPhase::Finished));
    assert!(matches!(a, DaemonAction::Return(DaemonOutcome::AlreadyRunning)));

    let (p, a) = daemon_step(&DaemonPhase::Probing, DaemonEvent::Healthy(false), lock);
    assert!(matches!(p, DaemonPhase::Locking) && matches!(a, DaemonAction::OpenLockAndTry));
    let (p, a) = daemon_step(&p, DaemonEvent::LockTaken(false), lock);
    assert!(matches!(p, DaemonPhase::Contended) && matches!(a, DaemonAction::PauseAndProbe));
    let (p, a) = daemon_step(&p, DaemonEvent::Healthy(false), lock);
    assert!(matches!(p, DaemonPhase::Locking) && matches!(a, DaemonAction::TryLock));
    let (p, a) = daemon_step(&p, DaemonEvent::LockTaken(true), lock);
    assert!(matches!(p, DaemonPhase::Rechecking) && matches!(a, DaemonAction::ProbeHealth));
    let (p, a) = daemon_step(&p, DaemonEvent::Healthy(false), lock);
    assert!(matches!(p, DaemonPhase::Spawning) && matches!(a, DaemonAction::Spawn));
    let (p2, a2) = daemon_step(&p, DaemonEvent::SpawnFailed("not found".to_string()), lock);
    assert!(matches!(p2, DaemonPhase::Finished));
    assert!(matches!(a2, DaemonAction::Release(DaemonOutcome::Failed(m)) if m == ".shiori-rag.lock: 起動コマンドの実行に失敗: not found"));
    let (p, a) = daemon_step(&p, DaemonEvent::Spawned, lock);
    assert!(matches!(p, DaemonPhase::Starting) && matches!(a, DaemonAction::AwaitStartup));
    let (_, a) = daemon_step(&p, DaemonEvent::Healthy(true), lock);
    assert!(matches!(a, DaemonAction::Release(DaemonOutcome::Started)));
    let (_, a) = daemon_step(&p, DaemonEvent::Healthy(false), lock);
    assert!(matches!(a, DaemonAction::Release(DaemonOutcome::Failed(m)) if m == ".shiori-rag.lock: 起動を試みましたがヘルスチェックがタイムアウトしました"));

    let (_, a) = daemon_step(&DaemonPhase::Rechecking, DaemonEvent::Healthy(true), lock);
    assert!(matches!(a, DaemonAction::Release(DaemonOutcome::AlreadyRunning)));
    let (_, a) = daemon_step(&DaemonPhase::Locking, DaemonEvent::OpenFailed("denied".to_string()), lock);
    assert!(matches!(a, DaemonAction::Return(DaemonOutcome::Failed(m)) if m == "ロックファイル(.shiori-rag.lock)を開けません: denied"));
    let (_, a) = daemon_step(&DaemonPhase::Locking, DaemonEvent::DirFailed("ro".to_string()), lock);
    assert!(matches!(a, DaemonAction::Return(DaemonOutcome::Failed(m)) if m == "dataディレクトリの作成に失敗: ro"));
}

#[test]
fn model_switch_decisions_and_reports() {
    assert!(matches!(switch_decision(NewModelStart::Healthy), SwitchDecision::Commit));
    assert!(matches!(
        switch_decision(NewModelStart::Unhealthy),
        SwitchDecision::RollBack { stop_new: true, error } if error == "新モデルの起動に失敗しました(ヘルスチェックがタイムアウトしました)"
    ));
    assert!(matches!(
        switch_decision(NewModelStart::Failed("E".to_string())),
        SwitchDecision::RollBack { stop_new: false, error } if error == "新モデルの起動に失敗: E"
    ));
    let r = commit_report(4096);
    assert!(r.success && !r.rolled_back && r.error.is_none());
    assert_eq!(r.measured_mb, Some(4096));
    let r = rollback_report("x".to_string(), true);
    assert!(!r.success && r.rolled_back && r.measured_mb.is_none());
    assert_eq!(r.error, Some("x".to_string()));
    assert_eq!(vram_growth_mb(1000, Some(5000)), 4000);
    assert_eq!(vram_growth_mb(1000, Some(900)), 0);
    assert_eq!(vram_growth_mb(1000, None), 0);
    assert_eq!(missing_model_message("/m/x.gguf"), "モデルファイルが見つかりません: /m/x.gguf");
}

#[test]
fn speech_synthesis_command() {
    assert_eq!(
        piper_exe(&v(&["r"]), Platform::Windows),
        v(&["r", "third_party", "piper-plus", "src", "rust", "target", "release", "piper-plus-cli.exe"])
    );
    assert_eq!(tts_output_filename(4321), "shiori-tts-4321.wav");
    let voice = VoiceArgs {
        length_scale: "1.1".to_string(),
        noise_scale: "0.667".to_string(),
        noise_w: "0.8".to_string(),
    };
    let args = piper_args("m.onnx", "m.json", "こんにちは", "o.wav", Platform::Mac, &voice);
    assert_eq!(
        args,
        v(&[
            "--model", "m.onnx", "--config", "m.json", "--text", "こんにちは", "--output-file", "o.wav",
            "--device", "coreml", "--language", "ja", "--length-scale", "1.1", "--noise-scale", "0.667",
            "--noise-w", "0.8"
        ])
    );
    let args = piper_args("m", "c", "t", "o", Platform::Linux, &voice);
    assert_eq!(args[9], "cuda");
    assert_eq!(piper_failure_message(Some(1)), "piper-plus-cliが失敗しました(exit code=Some(1))");
    assert_eq!(piper_failure_message(Some(-2)), "piper-plus-cliが失敗しました(exit code=Some(-2))");
    assert_eq!(piper_failure_message(None), "piper-plus-cliが失敗しました(exit code=None)");
}

#[test]
fn model_files_are_listed_by_name() {
    assert!(is_model_extension(Some("gguf")));
    assert!(!is_model_extension(Some("bin")));
    assert!(!is_model_extension(None));
    let names = v(&["qwen3-8b.gguf", "Qwen2.5.gguf", "a.gguf", "qwen3-14b.gguf", "詩織.gguf", "a"]);
    let sorted = sort_names(names.clone());
    let mut expected = names;
    expected.sort();
    assert_eq!(sorted, expected);
    assert_eq!(sort_names(vec![]), Vec::<String>::new());
}
