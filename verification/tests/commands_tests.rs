use ears::commands::{
    clear_history, finish_plan, load_history, models_request, save_history, get_status, is_toggle_request, keep_whisper_models,
    load_settings, models_url, persist_settings, provider_api_key, record_result,
    remove_history_item, save_settings, should_auto_stop, start_plan, stop_outcome,
    whisper_models, SettingsView, StoredSettings,
};
use ears::live::FinalTranscript;
use ears::state::{RecordingState, Settings};

fn empty_store() -> StoredSettings {
    StoredSettings {
        base_url: None,
        api_key: None,
        model: None,
        language: None,
        max_duration_secs: None,
        silence_stop_secs: None,
        auto_type: None,
        auto_copy: None,
        history_limit: None,
    }
}

fn custom() -> Settings {
    Settings {
        base_url: "http://localhost:8000/v1".to_string(),
        api_key: "sk-local".to_string(),
        model: "whisper-large-v3".to_string(),
        language: None,
        max_duration_secs: 300,
        silence_stop_secs: 0,
        auto_type: true,
        auto_copy: false,
        history_limit: 25,
    }
}

fn same(a: &Settings, b: &Settings) -> bool {
    a.base_url == b.base_url
        && a.api_key == b.api_key
        && a.model == b.model
        && a.language == b.language
        && a.max_duration_secs == b.max_duration_secs
        && a.silence_stop_secs == b.silence_stop_secs
        && a.auto_type == b.auto_type
        && a.auto_copy == b.auto_copy
        && a.history_limit == b.history_limit
}

#[test]
fn status_names_each_state() {
    let last = Some("hello".to_string());
    let s = get_status(&RecordingState::<u32>::Idle, &last);
    assert_eq!(s.state, "idle");
    assert_eq!(s.last_result, last);
    let s = get_status(&RecordingState::LiveRecording { session: 7u32 }, &None);
    assert_eq!(s.state, "recording");
    assert_eq!(s.last_result, None);
    let s = get_status(&RecordingState::<u32>::Transcribing, &None);
    assert_eq!(s.state, "transcribing");
}

#[test]
fn settings_view_hides_key() {
    let s = custom();
    let v = SettingsView::from(&s);
    assert!(v.has_api_key);
    assert_eq!(v.base_url, s.base_url);
    assert_eq!(v.model, s.model);
    assert_eq!(v.language, None);
    assert_eq!(v.max_duration_secs, 300);
    assert_eq!(v.silence_stop_secs, 0);
    assert!(v.auto_type);
    assert!(!v.auto_copy);
    assert_eq!(v.history_limit, 25);
    let v = SettingsView::from(&Settings::default());
    assert!(!v.has_api_key);
}

#[test]
fn saved_settings_read_back() {
    let s = custom();
    let mut loaded = Settings::default();
    load_settings(&mut loaded, persist_settings(&s));
    assert!(same(&loaded, &s));
}

#[test]
fn empty_store_keeps_defaults() {
    let mut loaded = Settings::default();
    load_settings(&mut loaded, empty_store());
    assert!(same(&loaded, &Settings::default()));
}

#[test]
fn stored_history_limit_is_clamped() {
    let mut s = Settings::default();
    load_settings(&mut s, StoredSettings { history_limit: Some(0), ..empty_store() });
    assert_eq!(s.history_limit, 1);
    load_settings(&mut s, StoredSettings { history_limit: Some(100_000), ..empty_store() });
    assert_eq!(s.history_limit, 9999);
    load_settings(&mut s, StoredSettings { history_limit: Some(42), ..empty_store() });
    assert_eq!(s.history_limit, 42);
}

#[test]
fn stored_durations_truncate_to_u32() {
    let mut s = Settings::default();
    load_settings(
        &mut s,
        StoredSettings {
            max_duration_secs: Some((1u64 << 32) + 5),
            silence_stop_secs: Some(7),
            ..empty_store()
        },
    );
    assert_eq!(s.max_duration_secs, 5);
    assert_eq!(s.silence_stop_secs, 7);
}

#[test]
fn stored_language_may_clear_it() {
    let mut s = Settings::default();
    load_settings(&mut s, StoredSettings { language: Some(None), ..empty_store() });
    assert_eq!(s.language, None);
    load_settings(&mut s, StoredSettings { language: Some(Some("de".into())), ..empty_store() });
    assert_eq!(s.language, Some("de".to_string()));
}

#[test]
fn out_of_range_limit_does_not_read_back() {
    let mut s = custom();
    s.history_limit = 0;
    let mut loaded = Settings::default();
    load_settings(&mut loaded, persist_settings(&s));
    assert_eq!(loaded.history_limit, 1);
}

#[test]
fn saving_keeps_key_and_model_when_empty() {
    let current = custom();
    let mut incoming = Settings::default();
    incoming.base_url = "https://api.groq.com/openai/v1".to_string();
    incoming.history_limit = 5;
    let n = save_settings(&current, incoming).unwrap();
    assert_eq!(n.api_key, "sk-local");
    assert_eq!(n.model, "whisper-large-v3");
    assert_eq!(n.base_url, "https://api.groq.com/openai/v1");
    assert_eq!(n.history_limit, 5);
}

#[test]
fn saving_replaces_key_and_model_when_given() {
    let current = custom();
    let mut incoming = custom();
    incoming.api_key = "sk-new".to_string();
    incoming.model = "whisper-1".to_string();
    let n = save_settings(&current, incoming).unwrap();
    assert_eq!(n.api_key, "sk-new");
    assert_eq!(n.model, "whisper-1");
}

#[test]
fn saving_rejects_bad_base_url() {
    let mut incoming = custom();
    incoming.base_url = "gopher://example.com".to_string();
    let r = save_settings(&custom(), incoming);
    assert_eq!(r.err(), Some("unsupported URL scheme: gopher".to_string()));
}

#[test]
fn typed_key_wins_over_stored() {
    let s = custom();
    assert_eq!(provider_api_key(String::new(), &s), "sk-local");
    assert_eq!(provider_api_key("sk-typed".into(), &s), "sk-typed");
}

#[test]
fn whisper_models_filtered_and_sorted() {
    let ids = vec![
        Some("whisper-1".to_string()),
        None,
        Some("gpt-4o-transcribe".to_string()),
        Some("distil-whisper-large-v3-en".to_string()),
        Some("Whisper-Upper".to_string()),
        Some("whisper-large-v3".to_string()),
        Some("whisper-1".to_string()),
    ];
    assert_eq!(
        keep_whisper_models(&ids),
        vec!["whisper-1", "distil-whisper-large-v3-en", "whisper-large-v3", "whisper-1"]
    );
    assert_eq!(
        whisper_models(&ids),
        vec!["distil-whisper-large-v3-en", "whisper-1", "whisper-1", "whisper-large-v3"]
    );
    assert!(whisper_models(&vec![]).is_empty());
}

#[test]
fn models_endpoint() {
    assert_eq!(models_url("https://api.openai.com/v1"), "https://api.openai.com/v1/models");
}

#[test]
fn history_newest_first_and_bounded() {
    let mut h: Vec<String> = vec!["b".into(), "c".into()];
    record_result(&mut h, "a".into(), 10);
    assert_eq!(h, vec!["a", "b", "c"]);
    record_result(&mut h, "z".into(), 2);
    assert_eq!(h, vec!["z", "a"]);
    record_result(&mut h, "y".into(), 0);
    assert!(h.is_empty());
}

#[test]
fn history_item_removal() {
    let mut h: Vec<String> = vec!["a".into(), "b".into(), "c".into()];
    assert!(remove_history_item(&mut h, 1));
    assert_eq!(h, vec!["a", "c"]);
    assert!(!remove_history_item(&mut h, 2));
    assert_eq!(h, vec!["a", "c"]);
    clear_history(&mut h);
    assert!(h.is_empty());
}

#[test]
fn stop_outcome_messages() {
    assert_eq!(stop_outcome(FinalTranscript::Text("hi".into())), Ok("hi".to_string()));
    assert_eq!(stop_outcome(FinalTranscript::NoSpeech), Err("No speech detected.".to_string()));
    assert_eq!(stop_outcome(FinalTranscript::NoText), Err("No speech transcribed.".to_string()));
    assert_eq!(
        stop_outcome(FinalTranscript::Error("HTTP 401".into())),
        Err("Transcription failed: HTTP 401".to_string())
    );
}

#[test]
fn start_needs_api_key() {
    assert!(start_plan(&Settings::default()).is_none());
    let p = start_plan(&custom()).unwrap();
    assert_eq!(p.config.api_key, "sk-local");
    assert_eq!(p.config.base_url, "http://localhost:8000/v1");
    assert_eq!(p.config.model, "whisper-large-v3");
    assert_eq!(p.config.language, None);
    assert_eq!(p.max_secs, 300);
    assert_eq!(p.silence_secs, 0);
}

#[test]
fn auto_stop_conditions() {
    assert!(should_auto_stop(120, 3, 120_000, false, 0));
    assert!(!should_auto_stop(120, 3, 119_999, false, 100_000));
    assert!(should_auto_stop(120, 3, 10_000, true, 3_000));
    assert!(!should_auto_stop(120, 3, 10_000, true, 2_999));
    assert!(!should_auto_stop(0, 0, u64::MAX, true, u64::MAX));
    assert!(!should_auto_stop(120, 0, 10_000, true, 1_000_000));
}

#[test]
fn finish_plan_notifies_unless_typing() {
    let p = finish_plan("hello", true, false);
    assert!(p.copy && !p.type_text);
    let n = p.notice.unwrap();
    assert_eq!(n.title, "ears - copied");
    assert_eq!(n.body, "hello");
    let long: String = "x".repeat(61);
    let p = finish_plan(&long, false, false);
    let n = p.notice.unwrap();
    assert_eq!(n.title, "ears - transcribed");
    assert_eq!(n.body, format!("{}...", "x".repeat(60)));
    let p = finish_plan("hello", false, true);
    assert!(p.notice.is_none());
    assert!(p.type_text);
}

#[test]
fn toggle_argument() {
    let args = |v: &[&str]| v.iter().map(|s| s.to_string()).collect::<Vec<String>>();
    assert!(is_toggle_request(&args(&["ears", "toggle"])));
    assert!(!is_toggle_request(&args(&["ears"])));
    assert!(!is_toggle_request(&args(&["ears", "toggles"])));
    assert!(!is_toggle_request(&args(&["toggle"])));
}

#[test]
fn history_file_round_trip() {
    let h: Vec<String> = vec!["first \"quoted\"".into(), "line\nbreak".into(), "é".into()];
    let json = save_history(&h);
    assert_eq!(json, serde_json::to_string(&h).unwrap());
    let mut loaded: Vec<String> = vec!["old".into()];
    load_history(&mut loaded, &json);
    assert_eq!(loaded, h);
}

#[test]
fn bad_history_file_keeps_history() {
    let mut h: Vec<String> = vec!["keep".into()];
    load_history(&mut h, "not json");
    assert_eq!(h, vec!["keep"]);
    load_history(&mut h, "[1, 2]");
    assert_eq!(h, vec!["keep"]);
    load_history(&mut h, "[]");
    assert!(h.is_empty());
    assert_eq!(save_history(&vec![]), "[]");
}

#[test]
fn history_json_escapes_control_characters() {
    let h: Vec<String> = vec!["a\u{1}\u{8}\u{c}\r\t\u{1f}\u{7f}/".into(), String::new()];
    let json = save_history(&h);
    assert_eq!(json, "[\"a\\u0001\\b\\f\\r\\t\\u001f\u{7f}/\",\"\"]");
    let mut loaded: Vec<String> = Vec::new();
    load_history(&mut loaded, &json);
    assert_eq!(loaded, h);
}

#[test]
fn models_request_needs_valid_url() {
    let s = custom();
    let (url, key) = models_request("https://api.openai.com/v1", String::new(), &s).unwrap();
    assert_eq!(url, "https://api.openai.com/v1/models");
    assert_eq!(key, "sk-local");
    let (_, key) = models_request("http://localhost:9000", "sk-typed".into(), &s).unwrap();
    assert_eq!(key, "sk-typed");
    assert_eq!(
        models_request("http://169.254.169.254", "sk-typed".into(), &s).err(),
        Some("base URL host is not allowed".to_string())
    );
    assert_eq!(
        models_request("nonsense", String::new(), &s).err(),
        Some("invalid base URL".to_string())
    );
}
