use ears::state::{
    default_auto_copy, default_base_url, default_history_limit, default_language,
    default_max_duration_secs, default_silence_stop_secs, complete_start, complete_stop,
    take_live_session,
    toggle_recording, RecordingState, Settings, ToggleAction,
};

#[test]
fn defaults() {
    assert_eq!(default_base_url(), "https://api.openai.com/v1");
    assert_eq!(default_history_limit(), 10);
    assert!(default_auto_copy());
    assert_eq!(default_silence_stop_secs(), 3);
    assert_eq!(default_max_duration_secs(), 120);
    assert_eq!(default_language(), Some("en".to_string()));
    let s = Settings::default();
    assert_eq!(s.base_url, "https://api.openai.com/v1");
    assert_eq!(s.api_key, "");
    assert_eq!(s.model, "");
    assert_eq!(s.language, Some("en".to_string()));
    assert_eq!(s.max_duration_secs, 120);
    assert_eq!(s.silence_stop_secs, 3);
    assert!(!s.auto_type);
    assert!(s.auto_copy);
    assert_eq!(s.history_limit, 10);
}

#[test]
fn toggle_from_idle_reserves_and_starts() {
    let mut st: RecordingState<String> = RecordingState::Idle;
    assert!(toggle_recording(&mut st) == ToggleAction::Start);
    assert!(matches!(st, RecordingState::Transcribing));
    assert!(toggle_recording(&mut st) == ToggleAction::Noop);
    assert!(matches!(st, RecordingState::Transcribing));
}

#[test]
fn toggle_while_live_asks_to_stop() {
    let mut st: RecordingState<String> = RecordingState::Idle;
    toggle_recording(&mut st);
    st = RecordingState::LiveRecording { session: "session".to_string() };
    assert!(toggle_recording(&mut st) == ToggleAction::Stop);
    assert!(matches!(st, RecordingState::LiveRecording { .. }));
    assert_eq!(take_live_session(&mut st), Some("session".to_string()));
    assert!(matches!(st, RecordingState::Transcribing));
    assert_eq!(take_live_session(&mut st), None);
    assert!(matches!(st, RecordingState::Transcribing));
    st = RecordingState::Idle;
    assert!(matches!(st, RecordingState::Idle));
    assert_eq!(take_live_session(&mut st), None);
    assert!(matches!(st, RecordingState::Idle));
}

#[test]
fn whole_toggles_settle() {
    let mut st: RecordingState<String> = RecordingState::Idle;
    assert!(toggle_recording(&mut st) == ToggleAction::Start);
    complete_start(&mut st, None);
    assert!(matches!(st, RecordingState::Idle));
    assert!(toggle_recording(&mut st) == ToggleAction::Start);
    complete_start(&mut st, Some("s".to_string()));
    assert!(matches!(st, RecordingState::LiveRecording { .. }));
    assert!(toggle_recording(&mut st) == ToggleAction::Stop);
    assert_eq!(take_live_session(&mut st), Some("s".to_string()));
    complete_stop(&mut st);
    assert!(matches!(st, RecordingState::Idle));
}
