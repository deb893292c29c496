use desky::config::Settings;
use desky::llm::process::{
    choose_port, launch_plan, server_flags, HealthStep, HealthWait, LlmProcess, LlmStatus,
    StartAction,
};
use std::path::PathBuf;

fn status_name(s: &LlmStatus) -> String {
    match s {
        LlmStatus::Stopped => "stopped".to_string(),
        LlmStatus::Starting => "starting".to_string(),
        LlmStatus::Ready => "ready".to_string(),
        LlmStatus::Crashed { message } => format!("crashed:{message}"),
    }
}

#[test]
fn default_process_is_stopped_on_port_zero() {
    let p = LlmProcess::default();
    assert_eq!(p.port, 0);
    assert_eq!(status_name(&p.status), "stopped");
    assert!(!p.is_ready());
}

#[test]
fn start_action_reuses_a_live_server_and_waits_for_a_starting_one() {
    let mut p = LlmProcess::default();
    assert_eq!(p.start_action(true), StartAction::Spawn);
    assert_eq!(p.start_action(false), StartAction::Spawn);
    p.begin_start(8090);
    assert_eq!(status_name(&p.status), "starting");
    assert_eq!(p.start_action(true), StartAction::AwaitHealth(8090));
    assert_eq!(p.start_action(false), StartAction::Spawn);
    p.mark_ready();
    assert_eq!(p.start_action(true), StartAction::Reuse(8090));
    assert_eq!(p.start_action(false), StartAction::Spawn);
    p.mark_crashed("gone".to_string());
    assert_eq!(p.start_action(true), StartAction::Spawn);
    p.mark_stopped();
    assert_eq!(p.start_action(true), StartAction::Spawn);
}

#[test]
fn poll_reports_a_crash_once_and_only_when_ready() {
    let mut p = LlmProcess::default();
    assert_eq!(p.poll_crashed(Some("exit status: 1".to_string())), None);
    assert_eq!(status_name(&p.status), "stopped");
    p.begin_start(9000);
    p.mark_ready();
    assert_eq!(p.poll_crashed(None), None);
    assert!(p.is_ready());
    let msg = p.poll_crashed(Some("signal: 9 (SIGKILL)".to_string()));
    assert_eq!(
        msg.as_deref(),
        Some("llama-server exited unexpectedly (signal: 9 (SIGKILL))")
    );
    assert_eq!(
        status_name(&p.status),
        "crashed:llama-server exited unexpectedly (signal: 9 (SIGKILL))"
    );
    assert_eq!(p.poll_crashed(Some("again".to_string())), None);
    p.mark_stopped();
    assert_eq!(status_name(&p.status), "stopped");
    assert_eq!(p.port, 9000);
}

#[test]
fn launch_needs_both_paths_server_first() {
    let mut s = Settings::default();
    assert_eq!(
        launch_plan(&s).err().as_deref(),
        Some("llama-server path not configured in Settings")
    );
    s.model_path = Some(PathBuf::from("/m.gguf"));
    assert_eq!(
        launch_plan(&s).err().as_deref(),
        Some("llama-server path not configured in Settings")
    );
    s.model_path = None;
    s.llama_server_path = Some(PathBuf::from("/bin/llama-server"));
    assert_eq!(
        launch_plan(&s).err().as_deref(),
        Some("model (.gguf) path not configured in Settings")
    );
    s.model_path = Some(PathBuf::from("/m.gguf"));
    let plan = launch_plan(&s).ok().unwrap();
    assert_eq!(plan.server_path, &PathBuf::from("/bin/llama-server"));
    assert_eq!(plan.model_path, &PathBuf::from("/m.gguf"));
}

#[test]
fn server_flags_render_numbers_in_decimal() {
    assert_eq!(
        server_flags(8090, 4096),
        vec!["--port", "8090", "--host", "127.0.0.1", "-c", "4096", "--jinja"]
    );
    assert_eq!(server_flags(0, 0)[1], "0");
    assert_eq!(server_flags(65535, u32::MAX)[5], "4294967295");
}

#[test]
fn port_choice() {
    assert_eq!(choose_port(8090, true, Some(41000)), 8090);
    assert_eq!(choose_port(8090, false, Some(41000)), 41000);
    assert_eq!(choose_port(8090, false, None), 8090);
}

#[test]
fn health_wait_backs_off_to_two_seconds() {
    let mut p = LlmProcess::default();
    p.begin_start(8090);
    let mut w = HealthWait::new();
    let mut pauses = Vec::new();
    for _ in 0..7 {
        match w.step(&mut p, None, false, false) {
            HealthStep::Sleep(ms) => pauses.push(ms),
            _ => panic!("expected a pause"),
        }
    }
    assert_eq!(pauses, vec![200, 400, 800, 1600, 2000, 2000, 2000]);
    assert_eq!(status_name(&p.status), "starting");
    assert!(matches!(w.step(&mut p, None, true, true), HealthStep::Healthy));
}

#[test]
fn health_wait_failures() {
    let mut p = LlmProcess::default();
    p.begin_start(8090);
    let mut w = HealthWait::new();
    match w.step(&mut p, Some("exit status: 2".to_string()), true, false) {
        HealthStep::Failed(m) => assert_eq!(m, "llama-server exited during startup (exit status: 2)"),
        _ => panic!("expected a failure"),
    }
    assert_eq!(
        status_name(&p.status),
        "crashed:llama-server exited during startup (exit status: 2)"
    );
    let mut p = LlmProcess::default();
    p.begin_start(8090);
    let mut w = HealthWait::new();
    match w.step(&mut p, None, false, true) {
        HealthStep::Failed(m) => assert_eq!(m, "timed out waiting for llama-server /health"),
        _ => panic!("expected a timeout"),
    }
    assert_eq!(
        status_name(&p.status),
        "crashed:timed out waiting for llama-server /health"
    );
}

#[test]
fn settings_defaults() {
    let s = Settings::default();
    assert_eq!(s.port, 8090);
    assert_eq!(s.context_size, 4096);
    assert!(s.llama_server_path.is_none());
    assert!(s.model_path.is_none());
    assert!(s.active_persona_id.is_none());
}
