use ears::live::{
    check_url_parts, choose_final_transcript, commit_utterance, encode_wav, response_text,
    silent_for, transcription_request, validate_base_url, ApiConfig, FinalPass, FinalTranscript,
    Flush, UrlParts, VadParams, VadState,
};

fn config(base_url: &str) -> ApiConfig {
    ApiConfig {
        api_key: "sk-test".to_string(),
        base_url: base_url.to_string(),
        model: "whisper-1".to_string(),
        language: Some("en".to_string()),
    }
}

#[test]
fn base_url_accepts_http_and_https() {
    assert_eq!(validate_base_url("https://api.openai.com/v1"), Ok(()));
    assert_eq!(validate_base_url("http://localhost:8000/v1"), Ok(()));
    assert_eq!(validate_base_url("http://192.168.1.20:9000"), Ok(()));
}

#[test]
fn base_url_scheme_is_read_lowercased() {
    assert_eq!(validate_base_url("HTTPS://Example.COM/v1"), Ok(()));
}

#[test]
fn base_url_rejects_garbage() {
    assert_eq!(validate_base_url("not a url"), Err("invalid base URL".to_string()));
    assert_eq!(validate_base_url(""), Err("invalid base URL".to_string()));
}

#[test]
fn base_url_rejects_other_schemes() {
    assert_eq!(
        validate_base_url("ftp://example.com/v1"),
        Err("unsupported URL scheme: ftp".to_string())
    );
    assert_eq!(
        validate_base_url("file:///etc/passwd"),
        Err("unsupported URL scheme: file".to_string())
    );
}

#[test]
fn base_url_rejects_link_local_metadata_host() {
    assert_eq!(
        validate_base_url("http://169.254.169.254/latest/meta-data"),
        Err("base URL host is not allowed".to_string())
    );
    assert_eq!(validate_base_url("http://169.25.1.1/"), Ok(()));
}

#[test]
fn url_parts_without_host_are_rejected() {
    let parts = UrlParts { scheme: "http".to_string(), host: None };
    assert_eq!(check_url_parts(Some(parts)), Err("base URL has no host".to_string()));
    assert_eq!(check_url_parts(None), Err("invalid base URL".to_string()));
}

#[test]
fn vad_params_follow_sample_rate() {
    let p = VadParams::new(48000);
    assert_eq!((p.frame_len, p.preroll), (1440, 9600));
    let p = VadParams::new(44100);
    assert_eq!((p.frame_len, p.preroll), (1323, 8820));
    let p = VadParams::new(16000);
    assert_eq!((p.frame_len, p.preroll), (480, 3200));
    let p = VadParams::new(0);
    assert_eq!((p.frame_len, p.preroll), (1, 0));
}

#[test]
fn vad_onset_after_150_ms_of_voice() {
    let p = VadParams::new(16000);
    let mut s = VadState::new();
    for _ in 0..4 {
        let r = s.step(&p, true);
        assert!(r.activity);
        assert!(!r.onset);
        assert!(!s.in_speech);
    }
    let r = s.step(&p, true);
    assert!(r.onset);
    assert!(s.in_speech);
    assert_eq!(s.voiced_ms, 150);
    assert_eq!(s.seg_len, 5 * 480);
}

#[test]
fn vad_silence_outside_speech_trims_to_preroll() {
    let p = VadParams::new(16000);
    let mut s = VadState::new();
    for i in 0..6 {
        let r = s.step(&p, false);
        assert!(r.adapt_noise);
        if (i + 1) * 480 > 3200 {
            assert_eq!(r.keep, Some(3200));
        } else {
            assert_eq!(r.keep, None);
        }
    }
    let r = s.step(&p, false);
    assert_eq!(r.keep, Some(3200));
    assert_eq!(s.seg_len, 3200);
    assert_eq!(s.silence_ms, 210);
    assert!(r.flush == Flush::Keep);
}

#[test]
fn vad_pause_of_600_ms_ends_utterance() {
    let p = VadParams::new(16000);
    let mut s = VadState::new();
    for _ in 0..5 {
        s.step(&p, true);
    }
    assert!(s.in_speech);
    for _ in 0..19 {
        let r = s.step(&p, false);
        assert!(r.flush == Flush::Keep);
        assert!(!r.adapt_noise);
        assert!(s.in_speech);
    }
    let r = s.step(&p, false);
    assert!(r.flush == Flush::Pause);
    assert!(!s.in_speech);
    assert_eq!(s.seg_len, 0);
}

#[test]
fn vad_voiced_frame_resets_silence() {
    let p = VadParams::new(16000);
    let mut s = VadState::new();
    for _ in 0..5 {
        s.step(&p, true);
    }
    for _ in 0..10 {
        s.step(&p, false);
    }
    s.step(&p, true);
    assert_eq!(s.silence_ms, 0);
    for _ in 0..19 {
        let r = s.step(&p, false);
        assert!(r.flush == Flush::Keep);
    }
    assert!(s.in_speech);
}

#[test]
fn vad_forces_chunk_after_six_seconds_of_speech() {
    let p = VadParams::new(16000);
    let mut s = VadState::new();
    let mut forced_at = None;
    for i in 0..400 {
        let r = s.step(&p, true);
        if r.flush == Flush::Forced {
            forced_at = Some(i + 1);
            break;
        }
    }
    // 6 s at 16 kHz is 96000 samples, i.e. 200 frames of 480 samples.
    assert_eq!(forced_at, Some(200));
    assert!(s.in_speech);
    assert_eq!(s.seg_len, 0);
}

fn text_of(t: FinalTranscript) -> String {
    match t {
        FinalTranscript::Text(s) => format!("text:{s}"),
        FinalTranscript::NoSpeech => "no-speech".to_string(),
        FinalTranscript::NoText => "no-text".to_string(),
        FinalTranscript::Error(e) => format!("error:{e}"),
    }
}

#[test]
fn final_pass_text_wins() {
    let r = choose_final_transcript(" hello ", true, FinalPass::Transcribed("  Hello there. ".into()));
    assert_eq!(text_of(r), "text:Hello there.");
}

#[test]
fn blank_final_pass_falls_back_to_preview() {
    let r = choose_final_transcript(" hello world \n", true, FinalPass::Transcribed("  ".into()));
    assert_eq!(text_of(r), "text:hello world");
    let r = choose_final_transcript("", true, FinalPass::Transcribed("".into()));
    assert_eq!(text_of(r), "no-text");
    let r = choose_final_transcript("  ", false, FinalPass::Skipped);
    assert_eq!(text_of(r), "no-speech");
    let r = choose_final_transcript("abc", false, FinalPass::Skipped);
    assert_eq!(text_of(r), "text:abc");
}

#[test]
fn failed_final_pass_reported_only_without_preview() {
    let r = choose_final_transcript("", true, FinalPass::Failed("timeout".into()));
    assert_eq!(text_of(r), "error:timeout");
    let r = choose_final_transcript("partial text", true, FinalPass::Failed("timeout".into()));
    assert_eq!(text_of(r), "text:partial text");
}

#[test]
fn utterances_commit_with_spaces() {
    let mut c = String::new();
    assert!(commit_utterance(&mut c, "  Hello. "));
    assert_eq!(c, "Hello.");
    assert!(!commit_utterance(&mut c, " \t "));
    assert_eq!(c, "Hello.");
    assert!(commit_utterance(&mut c, "How are you?"));
    assert_eq!(c, "Hello. How are you?");
}

#[test]
fn response_text_is_trimmed_or_empty() {
    assert_eq!(response_text(Some("  hi there\n".into())), "hi there");
    assert_eq!(response_text(None), "");
}

#[test]
fn wav_header_and_samples_exact() {
    let bytes = encode_wav(&[0, -1, 32767, -32768], 16000);
    let mut expected: Vec<u8> = Vec::new();
    expected.extend_from_slice(b"RIFF");
    expected.extend_from_slice(&(36u32 + 8).to_le_bytes());
    expected.extend_from_slice(b"WAVEfmt ");
    expected.extend_from_slice(&16u32.to_le_bytes());
    expected.extend_from_slice(&1u16.to_le_bytes());
    expected.extend_from_slice(&1u16.to_le_bytes());
    expected.extend_from_slice(&16000u32.to_le_bytes());
    expected.extend_from_slice(&32000u32.to_le_bytes());
    expected.extend_from_slice(&2u16.to_le_bytes());
    expected.extend_from_slice(&16u16.to_le_bytes());
    expected.extend_from_slice(b"data");
    expected.extend_from_slice(&8u32.to_le_bytes());
    expected.extend_from_slice(&[0x00, 0x00, 0xff, 0xff, 0xff, 0x7f, 0x00, 0x80]);
    assert_eq!(bytes, expected);
    assert_eq!(bytes.len(), 44 + 8);
}

#[test]
fn empty_wav_is_just_a_header() {
    let bytes = encode_wav(&[], 44100);
    assert_eq!(bytes.len(), 44);
    assert_eq!(&bytes[4..8], &36u32.to_le_bytes());
    assert_eq!(&bytes[24..28], &44100u32.to_le_bytes());
    assert_eq!(&bytes[28..32], &88200u32.to_le_bytes());
}

#[test]
fn transcription_request_targets_endpoint() {
    let q = transcription_request(&[1, 2], &config("https://api.example.com/v1")).unwrap();
    assert_eq!(q.url, "https://api.example.com/v1/audio/transcriptions");
    assert_eq!(q.api_key, "sk-test");
    assert_eq!(q.model, "whisper-1");
    assert_eq!(q.language, Some("en".to_string()));
    assert_eq!(q.wav, encode_wav(&[1, 2], 16000));
}

#[test]
fn transcription_request_refuses_bad_base_url() {
    let r = transcription_request(&[1, 2], &config("http://169.254.169.254"));
    assert_eq!(r.err(), Some("base URL host is not allowed".to_string()));
}

#[test]
fn silence_needs_speech_first() {
    assert!(!silent_for(false, 10_000, 3000));
    assert!(silent_for(true, 3000, 3000));
    assert!(!silent_for(true, 2999, 3000));
}

#[test]
fn base_url_rejects_metadata_address_in_ipv6_forms() {
    let refused = Err("base URL host is not allowed".to_string());
    assert_eq!(validate_base_url("http://[::ffff:169.254.169.254]/"), refused);
    assert_eq!(validate_base_url("http://[::ffff:a9fe:a9fe]/latest"), refused);
    assert_eq!(validate_base_url("http://[64:ff9b::169.254.169.254]/"), refused);
    assert_eq!(validate_base_url("http://[fe80::1]/"), refused);
    assert_eq!(validate_base_url("http://[FEBF::1]/"), refused);
    assert_eq!(validate_base_url("http://[fd00:ec2::254]/"), refused);
}

#[test]
fn base_url_rejects_metadata_address_in_other_ipv4_spellings() {
    let refused = Err("base URL host is not allowed".to_string());
    assert_eq!(validate_base_url("http://2852039166/"), refused);
    assert_eq!(validate_base_url("http://0xA9FEA9FE/"), refused);
}

#[test]
fn base_url_accepts_other_ipv6_hosts() {
    assert_eq!(validate_base_url("http://[::1]:8000/v1"), Ok(()));
    assert_eq!(validate_base_url("http://[fec0::1]/"), Ok(()));
    assert_eq!(validate_base_url("http://[2001:db8::1]/v1"), Ok(()));
}

#[test]
fn vad_remembers_speech_after_utterance_ends() {
    let p = VadParams::new(16000);
    let mut s = VadState::new();
    assert!(!s.had_speech);
    for _ in 0..4 {
        s.step(&p, true);
    }
    assert!(!s.had_speech);
    s.step(&p, true);
    assert!(s.had_speech);
    for _ in 0..40 {
        s.step(&p, false);
    }
    assert!(!s.in_speech);
    assert!(s.had_speech);
}

#[test]
fn transcription_request_reports_bad_url_for_any_length() {
    let r = transcription_request(&[], &config("ftp://example.com"));
    assert_eq!(r.err(), Some("unsupported URL scheme: ftp".to_string()));
}

#[test]
fn base_url_accepts_hosts_near_the_refused_ranges() {
    assert_eq!(validate_base_url("http://[fe8::1]/"), Ok(()));
    assert_eq!(validate_base_url("http://[fec0::1]/"), Ok(()));
    assert_eq!(validate_base_url("http://[::a9fe:1:2]/"), Ok(()));
    assert_eq!(validate_base_url("http://[::ffff:a9fe:1:2]/"), Ok(()));
    assert_eq!(validate_base_url("http://[64:ff9b::a9fe:1:2]/"), Ok(()));
    assert_eq!(validate_base_url("http://[fd00:ec2::255]/"), Ok(()));
}

#[test]
fn base_url_rejects_embedded_link_local_edges() {
    let refused = Err("base URL host is not allowed".to_string());
    assert_eq!(validate_base_url("http://[::ffff:169.254.0.0]/"), refused);
    assert_eq!(validate_base_url("http://[::169.254.255.255]/"), refused);
    assert_eq!(validate_base_url("http://[febf:ffff::1]/"), refused);
}
