use dev_voice::client::{
    daemon_shutdown, daemon_start_recording, daemon_stop_recording, ClientError, Exchange,
    Readiness, StartupWait, MAX_POLLS, POLL_INTERVAL_MS,
};
use dev_voice::config::Config;
use dev_voice::inject::{inject_text, DisplayServer};
use dev_voice::protocol::DaemonResponse;

fn received(line: &str) -> Exchange {
    Exchange::Received { line: line.to_string() }
}

#[test]
fn test_default_config() {
    let config = Config::default();
    assert_eq!(config.audio.sample_rate, 16000);
    assert_eq!(config.model.language, "en");
}

#[test]
fn default_config_paths() {
    let c = Config::with_data_dir(Some("/home/u/.local/share".to_string()));
    assert_eq!(c.model.path, "/home/u/.local/share/dev-voice/models/ggml-base.en.bin");
    assert_eq!(c.audio.timeout_secs, 30);
    assert!(c.output.append_space);
    assert_eq!(c.output.display_server, None);
    let c = Config::with_data_dir(None);
    assert_eq!(c.model.path, "./models/ggml-base.en.bin");
}

#[test]
fn start_returns_transcript() {
    assert_eq!(
        daemon_start_recording(received("{\"type\":\"Success\",\"text\":\"hello\"}")),
        Ok("hello".to_string())
    );
    assert_eq!(
        daemon_start_recording(received("{\"type\":\"Error\",\"message\":\"recording already in progress\"}")),
        Err(ClientError::Rejected { message: "recording already in progress".to_string() })
    );
    assert_eq!(
        daemon_start_recording(received("{\"type\":\"Ok\"}")),
        Err(ClientError::Unexpected(DaemonResponse::Ack))
    );
    assert_eq!(daemon_start_recording(received("garbage")), Err(ClientError::Protocol));
    assert_eq!(daemon_start_recording(Exchange::Unreachable), Err(ClientError::DaemonUnavailable));
    assert_eq!(
        daemon_start_recording(Exchange::Transport { message: "broken pipe".to_string() }),
        Err(ClientError::Connection { message: "broken pipe".to_string() })
    );
}

#[test]
fn stop_needs_acknowledgement() {
    assert_eq!(daemon_stop_recording(received("{\"type\":\"Ok\"}")), Ok(()));
    assert_eq!(daemon_stop_recording(Exchange::Unreachable), Err(ClientError::NotRunning));
    assert_eq!(
        daemon_stop_recording(received("{\"type\":\"Error\",\"message\":\"no active recording\"}")),
        Err(ClientError::Rejected { message: "no active recording".to_string() })
    );
    assert_eq!(
        daemon_stop_recording(received("{\"type\":\"Success\",\"text\":\"\"}")),
        Err(ClientError::Unexpected(DaemonResponse::Success { text: String::new() }))
    );
}

#[test]
fn shutdown_tolerates_absent_daemon() {
    assert_eq!(daemon_shutdown(Exchange::Unreachable), Ok(()));
    assert_eq!(daemon_shutdown(received("{\"type\":\"Ok\"}")), Ok(()));
    assert_eq!(
        daemon_shutdown(Exchange::Transport { message: "refused".to_string() }),
        Err(ClientError::Connection { message: "refused".to_string() })
    );
}

#[test]
fn startup_wait_is_bounded() {
    let mut w = StartupWait::new();
    assert_eq!(w.next(false), Readiness::Spawn { wait_ms: POLL_INTERVAL_MS });
    let mut waits = 1;
    loop {
        match w.next(false) {
            Readiness::Wait { wait_ms } => {
                assert_eq!(wait_ms, 100);
                waits += 1;
            }
            Readiness::GiveUp => break,
            other => panic!("unexpected {:?}", other),
        }
    }
    assert_eq!(waits, MAX_POLLS);
    assert_eq!(w.next(true), Readiness::Ready);
}

#[test]
fn running_daemon_is_ready_at_once() {
    let mut w = StartupWait::new();
    assert_eq!(w.next(true), Readiness::Ready);
}

#[test]
fn injection_commands() {
    assert_eq!(inject_text("", &DisplayServer::Wayland), None);
    let c = inject_text("hi there", &DisplayServer::Wayland).unwrap();
    assert_eq!(c.program, "wtype");
    assert_eq!(c.args, vec!["--".to_string(), "hi there".to_string()]);
    let c = inject_text("x", &DisplayServer::X11).unwrap();
    assert_eq!(c.program, "xdotool");
    assert_eq!(c.args, vec!["type", "--clearmodifiers", "--", "x"]);
    assert_eq!(DisplayServer::from_session(true), DisplayServer::Wayland);
    assert_eq!(DisplayServer::from_session(false), DisplayServer::X11);
}
