use run_orchestrator::classify::classify_level;
use run_orchestrator::classify::LogLevel;
use run_orchestrator::classify::LogSource;
use run_orchestrator::events::run_events;
use run_orchestrator::events::ProcessEvent;
use run_orchestrator::events::RunEvent;
use run_orchestrator::sanitize::sanitize_line;
use run_orchestrator::session::kill_outcome;
use run_orchestrator::session::RunError;
use run_orchestrator::session::RunSession;

#[test]
fn sanitize_drops_empty_and_terminator_only_chunks() {
    assert_eq!(sanitize_line(Vec::new()), None);
    assert_eq!(sanitize_line(b"\n".to_vec()), None);
    assert_eq!(sanitize_line(b"\r".to_vec()), None);
    assert_eq!(sanitize_line(b"\r\n".to_vec()), None);
    assert_eq!(sanitize_line(b"\n\r\n\n".to_vec()), None);
}

#[test]
fn sanitize_strips_trailing_terminators() {
    assert_eq!(sanitize_line(b"hello\n".to_vec()), Some("hello".to_string()));
    assert_eq!(sanitize_line(b"hello\r\n".to_vec()), Some("hello".to_string()));
    assert_eq!(sanitize_line(b"hello".to_vec()), Some("hello".to_string()));
    assert_eq!(sanitize_line(b"a\nb\n".to_vec()), Some("a\nb".to_string()));
}

#[test]
fn sanitize_drops_invalid_utf8() {
    assert_eq!(sanitize_line(vec![0xff, 0xfe]), None);
    assert_eq!(sanitize_line(vec![b'o', b'k', 0x80]), None);
}

#[test]
fn stderr_is_always_an_error() {
    assert_eq!(classify_level(LogSource::Stderr, "all fine here"), LogLevel::Error);
    assert_eq!(classify_level(LogSource::Stderr, ""), LogLevel::Error);
    assert_eq!(classify_level(LogSource::Stderr, "WARN only"), LogLevel::Error);
}

#[test]
fn stdout_keywords_pick_the_level() {
    assert_eq!(classify_level(LogSource::Stdout, "test error: oops"), LogLevel::Error);
    assert_eq!(classify_level(LogSource::Stdout, "eRrOr in step"), LogLevel::Error);
    assert_eq!(classify_level(LogSource::Stdout, "3 tests FAILed"), LogLevel::Error);
    assert_eq!(classify_level(LogSource::Stdout, "warning: slow"), LogLevel::Warn);
    assert_eq!(classify_level(LogSource::Stdout, "WARN: slow test"), LogLevel::Warn);
    assert_eq!(classify_level(LogSource::Stdout, "all 12 tests passed"), LogLevel::Info);
    assert_eq!(classify_level(LogSource::Stdout, ""), LogLevel::Info);
}

#[test]
fn failure_keyword_wins_over_warning() {
    assert_eq!(classify_level(LogSource::Stdout, "warn: FAIL ahead"), LogLevel::Error);
    assert_eq!(classify_level(LogSource::Stdout, "error and warn"), LogLevel::Error);
}

#[test]
fn second_start_is_refused_while_running() {
    let mut session: RunSession<u32> = RunSession::new();
    assert!(session.check_can_start().is_ok());
    assert!(session.note_spawned(Ok(7)).is_ok());
    assert!(session.is_active());
    assert_eq!(session.check_can_start(), Err(RunError::AlreadyRunning));
}

#[test]
fn cancel_when_idle_is_a_quiet_no_op() {
    let mut session: RunSession<u32> = RunSession::new();
    assert_eq!(session.take_child(), None);
    assert!(!session.is_active());
    assert!(session.check_can_start().is_ok());
}

#[test]
fn cancel_clears_the_guard_before_the_process_exits() {
    let mut session: RunSession<u32> = RunSession::new();
    assert!(session.note_spawned(Ok(1)).is_ok());
    // cancel: the handle leaves the slot at once ...
    assert_eq!(session.take_child(), Some(1));
    assert!(kill_outcome(Ok(())).is_ok());
    // ... so a new run may start before the old process reports its end
    assert!(session.check_can_start().is_ok());
    assert!(session.note_spawned(Ok(2)).is_ok());
    assert!(session.is_active());
}

#[test]
fn spawn_failure_keeps_the_session_idle() {
    let mut session: RunSession<u32> = RunSession::new();
    let refused = session.note_spawned(Err("npm: not found".to_string()));
    assert_eq!(refused, Err(RunError::SpawnFailure { message: "npm: not found".to_string() }));
    assert!(!session.is_active());
    assert!(session.check_can_start().is_ok());
}

#[test]
fn kill_refusal_is_reported() {
    let denied = kill_outcome(Err("no such process".to_string()));
    assert_eq!(denied, Err(RunError::KillFailure { message: "no such process".to_string() }));
}

#[test]
fn error_texts_match_the_ui_wording() {
    assert_eq!(RunError::AlreadyRunning.describe(), "Test suite is already running");
    assert_eq!(
        RunError::WorkspaceNotFound.describe(),
        "Unable to locate workspace directory for npm"
    );
    assert_eq!(RunError::SpawnFailure { message: "denied".to_string() }.describe(), "denied");
}

#[test]
fn warn_line_then_clean_exit() {
    let events = vec![
        ProcessEvent::StdoutChunk(b"WARN: slow test\n".to_vec()),
        ProcessEvent::Terminated(Some(0)),
    ];
    let expected = vec![
        RunEvent::Started,
        RunEvent::Log {
            level: LogLevel::Warn,
            message: "WARN: slow test".to_string(),
            source: LogSource::Stdout,
        },
        RunEvent::Terminated { code: Some(0) },
    ];
    assert_eq!(run_events(events), expected);
}

#[test]
fn stderr_line_then_failing_exit() {
    let events = vec![
        ProcessEvent::StderrChunk(b"assertion failed\n".to_vec()),
        ProcessEvent::Terminated(Some(1)),
    ];
    let expected = vec![
        RunEvent::Started,
        RunEvent::Log {
            level: LogLevel::Error,
            message: "assertion failed".to_string(),
            source: LogSource::Stderr,
        },
        RunEvent::Terminated { code: Some(1) },
    ];
    assert_eq!(run_events(events), expected);
}

#[test]
fn blank_chunks_and_unknown_events_stay_silent() {
    let events = vec![
        ProcessEvent::StdoutChunk(b"\r\n".to_vec()),
        ProcessEvent::Unknown,
        ProcessEvent::StdoutChunk(b"ok\n".to_vec()),
        ProcessEvent::Terminated(None),
    ];
    let expected = vec![
        RunEvent::Started,
        RunEvent::Log {
            level: LogLevel::Info,
            message: "ok".to_string(),
            source: LogSource::Stdout,
        },
        RunEvent::Terminated { code: None },
    ];
    assert_eq!(run_events(events), expected);
}

#[test]
fn stream_failure_ends_the_run_with_an_error_event() {
    let events = vec![
        ProcessEvent::StdoutChunk(b"starting\n".to_vec()),
        ProcessEvent::SpawnOrIoError("broken pipe".to_string()),
        ProcessEvent::StdoutChunk(b"late line\n".to_vec()),
    ];
    let expected = vec![
        RunEvent::Started,
        RunEvent::Log {
            level: LogLevel::Info,
            message: "starting".to_string(),
            source: LogSource::Stdout,
        },
        RunEvent::Error { message: "broken pipe".to_string() },
    ];
    assert_eq!(run_events(events), expected);
}

#[test]
fn nothing_follows_the_terminal_event() {
    let events = vec![
        ProcessEvent::Terminated(Some(0)),
        ProcessEvent::StdoutChunk(b"stray\n".to_vec()),
        ProcessEvent::Terminated(Some(1)),
    ];
    let expected = vec![RunEvent::Started, RunEvent::Terminated { code: Some(0) }];
    assert_eq!(run_events(events), expected);
}

#[test]
fn multibyte_text_survives_sanitizing() {
    assert_eq!(sanitize_line("héllo wörld\r\n".as_bytes().to_vec()), Some("héllo wörld".to_string()));
}

#[test]
fn a_run_with_no_process_events_announces_itself_only() {
    assert_eq!(run_events(Vec::new()), vec![RunEvent::Started]);
}
