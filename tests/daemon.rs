use dev_voice::capture::CaptureBuffer;
use dev_voice::protocol::{
    decode_request, decode_response, encode_request, encode_response, DaemonRequest,
    DaemonResponse, ProtocolError,
};
use dev_voice::session::{Next, Phase, SessionManager};

fn error(m: &str) -> DaemonResponse {
    DaemonResponse::Error { message: m.to_string() }
}

#[test]
fn start_while_recording_is_rejected() {
    let mut m = SessionManager::new();
    let s = m.start(0, 10).unwrap();
    assert_eq!(s.max_duration, 0);
    assert_eq!(s.started_ms, 10);
    assert_eq!(m.start(3, 20), Err(error("recording already in progress")));
    assert_eq!(m.phase(), Phase::Recording);
    assert_eq!(m.active_session(), Some(s));
    assert_eq!(m.stop(), DaemonResponse::Ack);
    assert_eq!(m.start(3, 30), Err(error("recording already in progress")));
    assert_eq!(m.phase(), Phase::Transcribing);
}

#[test]
fn stop_while_idle_is_rejected() {
    let mut m = SessionManager::new();
    assert_eq!(m.stop(), error("no active recording"));
    assert_eq!(m.phase(), Phase::Idle);
    assert_eq!(m.active_session(), None);
}

#[test]
fn empty_capture_gives_empty_transcript() {
    let mut m = SessionManager::new();
    m.start(0, 0).unwrap();
    assert_eq!(m.stop(), DaemonResponse::Ack);
    assert_eq!(
        m.captured(0),
        Next::Reply(DaemonResponse::Success { text: String::new() })
    );
    assert_eq!(m.phase(), Phase::Idle);
    assert_eq!(m.active_session(), None);
}

#[test]
fn stop_after_two_seconds_of_silence() {
    let mut m = SessionManager::new();
    m.start(0, 0).unwrap();
    assert!(!m.tick(2000));
    assert_eq!(m.stop(), DaemonResponse::Ack);
    assert_eq!(m.captured(32000), Next::RunEngine);
    assert_eq!(
        m.engine_done(Ok(String::new())),
        DaemonResponse::Success { text: String::new() }
    );
    assert_eq!(m.phase(), Phase::Idle);
}

#[test]
fn deadline_stops_recording_by_itself() {
    let mut m = SessionManager::new();
    m.start(5, 1000).unwrap();
    assert!(!m.tick(5999));
    assert_eq!(m.phase(), Phase::Recording);
    assert!(m.tick(6000));
    assert_eq!(m.phase(), Phase::Transcribing);
    assert!(!m.tick(7000));
    assert_eq!(m.captured(80000), Next::RunEngine);
    assert_eq!(
        m.engine_done(Ok("hello".to_string())),
        DaemonResponse::Success { text: "hello".to_string() }
    );
    assert_eq!(m.phase(), Phase::Idle);
}

#[test]
fn unbounded_recording_never_times_out() {
    let mut m = SessionManager::new();
    m.start(0, 0).unwrap();
    assert!(!m.tick(u64::MAX));
    assert_eq!(m.phase(), Phase::Recording);
}

#[test]
fn back_to_back_starts() {
    let mut m = SessionManager::new();
    let first = m.start(0, 0).unwrap();
    assert_eq!(m.start(0, 1), Err(error("recording already in progress")));
    assert_eq!(m.stop(), DaemonResponse::Ack);
    assert_eq!(m.captured(5), Next::RunEngine);
    assert_eq!(m.engine_done(Ok("one".to_string())), DaemonResponse::Success { text: "one".to_string() });
    let second = m.start(0, 2).unwrap();
    assert_ne!(first.id, second.id);
}

#[test]
fn engine_and_capture_failures_end_session() {
    let mut m = SessionManager::new();
    m.start(0, 0).unwrap();
    assert_eq!(m.capture_failed("no input device".to_string()), error("no input device"));
    assert_eq!(m.phase(), Phase::Idle);
    m.start(0, 0).unwrap();
    m.stop();
    assert_eq!(m.captured(3), Next::RunEngine);
    assert_eq!(m.engine_done(Err("inference failed".to_string())), error("inference failed"));
    assert_eq!(m.phase(), Phase::Idle);
}

#[test]
fn shutdown_while_recording() {
    let mut m = SessionManager::new();
    m.start(0, 0).unwrap();
    assert_eq!(m.shutdown(), DaemonResponse::Ack);
    assert_eq!(m.phase(), Phase::Stopped);
    assert_eq!(m.active_session(), None);
    assert_eq!(m.captured(100), Next::Reply(error("daemon is shutting down")));
    assert_eq!(m.start(0, 5), Err(error("daemon is shutting down")));
    assert_eq!(m.stop(), error("no active recording"));
}

#[test]
fn cancel_keeps_every_sample() {
    let mut c: CaptureBuffer<i16> = CaptureBuffer::new(None);
    c.push(&[1, 2, 3]);
    c.push(&[]);
    c.push(&[4, 5]);
    assert_eq!(c.cancel(), 5);
    assert_eq!(c.cancel(), 5);
    c.push(&[6, 7]);
    assert!(c.is_cancelled());
    assert_eq!(c.into_samples(), vec![1, 2, 3, 4, 5]);
}

#[test]
fn capture_deadline_acts_as_cancel() {
    let mut c: CaptureBuffer<f32> = CaptureBuffer::new(Some(500));
    c.push(&[0.25, -0.5]);
    assert!(!c.poll(499));
    assert!(c.poll(500));
    c.push(&[1.0]);
    assert_eq!(c.into_samples(), vec![0.25, -0.5]);
}

#[test]
fn cancel_before_any_sample() {
    let mut c: CaptureBuffer<f32> = CaptureBuffer::new(None);
    assert_eq!(c.cancel(), 0);
    assert!(c.into_samples().is_empty());
}

#[test]
fn request_lines() {
    assert_eq!(
        encode_request(DaemonRequest::StartRecording { max_duration: 5 }),
        "{\"type\":\"StartRecording\",\"max_duration\":5}"
    );
    assert_eq!(encode_request(DaemonRequest::StopRecording), "{\"type\":\"StopRecording\"}");
    assert_eq!(encode_request(DaemonRequest::Shutdown), "{\"type\":\"Shutdown\"}");
    assert_eq!(
        encode_request(DaemonRequest::StartRecording { max_duration: 4294967295 }),
        "{\"type\":\"StartRecording\",\"max_duration\":4294967295}"
    );
}

#[test]
fn request_round_trip() {
    for r in [
        DaemonRequest::StartRecording { max_duration: 0 },
        DaemonRequest::StartRecording { max_duration: 30 },
        DaemonRequest::StartRecording { max_duration: u32::MAX },
        DaemonRequest::StopRecording,
        DaemonRequest::Shutdown,
    ] {
        assert_eq!(decode_request(&encode_request(r)), Ok(r));
    }
}

#[test]
fn response_lines() {
    assert_eq!(encode_response(&DaemonResponse::Ack), "{\"type\":\"Ok\"}");
    assert_eq!(
        encode_response(&DaemonResponse::Success { text: "hi \"you\"\n".to_string() }),
        "{\"type\":\"Success\",\"text\":\"hi \\\"you\\\"\\n\"}"
    );
    assert_eq!(
        encode_response(&error("a\\b\u{1}")),
        "{\"type\":\"Error\",\"message\":\"a\\\\b\\u0001\"}"
    );
}

#[test]
fn response_round_trip() {
    for r in [
        DaemonResponse::Ack,
        DaemonResponse::Success { text: String::new() },
        DaemonResponse::Success { text: "Grüße, \"welt\"\t\r\n\u{1f}\u{0}\\".to_string() },
        error("no active recording"),
        error(""),
    ] {
        assert_eq!(decode_response(&encode_response(&r)), Ok(r));
    }
}

#[test]
fn malformed_lines_are_rejected() {
    for line in [
        "",
        "{\"type\":\"Stop\"}",
        "{\"type\":\"StartRecording\",\"max_duration\":}",
        "{\"type\":\"StartRecording\",\"max_duration\":4294967296}",
        "{\"type\":\"StartRecording\",\"max_duration\":-1}",
        "not json",
    ] {
        assert_eq!(decode_request(line), Err(ProtocolError::Malformed));
    }
    for line in [
        "{\"type\":\"Success\",\"text\":\"unterminated}",
        "{\"type\":\"Success\",\"text\":\"x\"} ",
        "{\"type\":\"Error\",\"message\":\"bad \\q\"}",
        "{\"type\":\"Ok\"} ",
    ] {
        assert_eq!(decode_response(line), Err(ProtocolError::Malformed));
    }
}
