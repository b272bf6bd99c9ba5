use ears::models::{
    download_url, find_model, model_or_error, models, temp_file_name, DownloadProgress,
};
use ears::text::{contains, preview, same_str, sort_strings, starts_with, str_le, trim_str};
use ears::transcribe::join_segments;
use ears::tray::{last_result_label, tray_texts};

#[test]
fn catalogue_lists_eight_models() {
    let m = models();
    assert_eq!(m.len(), 8);
    assert_eq!(m[0].name, "tiny.en");
    assert_eq!(m[3].filename, "ggml-medium.en.bin");
    assert_eq!(m[7].size_mb, 1457);
}

#[test]
fn find_model_by_name() {
    let m = find_model("base").unwrap();
    assert_eq!(m.filename, "ggml-base.bin");
    assert_eq!(m.size_mb, 142);
    assert_eq!(find_model("small.en").unwrap().size_mb, 466);
    assert!(find_model("large").is_none());
    assert!(find_model("").is_none());
}

#[test]
fn unknown_model_error() {
    assert_eq!(model_or_error("huge").err(), Some("unknown model: huge".to_string()));
    assert_eq!(model_or_error("tiny").unwrap().filename, "ggml-tiny.bin");
}

#[test]
fn download_locations() {
    let m = find_model("tiny.en").unwrap();
    assert_eq!(
        download_url(&m),
        "https://huggingface.co/ggerganov/whisper.cpp/resolve/main/ggml-tiny.en.bin"
    );
    assert_eq!(temp_file_name(&m), "ggml-tiny.en.bin.tmp");
}

#[test]
fn download_progress_counts_bytes() {
    let mut p = DownloadProgress::start("tiny".into(), 1000);
    p.advance(300);
    p.advance(200);
    assert_eq!(p.downloaded, 500);
    assert!(!p.done);
    p.finish();
    assert!(p.done);
    assert_eq!(p.total, 1000);
    assert_eq!(p.model, "tiny");
}

#[test]
fn tray_texts_follow_recording() {
    let t = tray_texts(true);
    assert_eq!(t.tooltip, "ears - recording (click to stop)");
    assert_eq!(t.menu_label, "Stop Recording");
    let t = tray_texts(false);
    assert_eq!(t.tooltip, "ears - click to record");
    assert_eq!(t.menu_label, "Start Recording");
}

#[test]
fn last_result_label_previews_50_chars() {
    assert_eq!(last_result_label("short"), "short");
    let exact = "é".repeat(50);
    assert_eq!(last_result_label(&exact), exact);
    let long = "é".repeat(51);
    assert_eq!(last_result_label(&long), format!("{}...", "é".repeat(50)));
}

#[test]
fn segments_join_with_spaces() {
    let segs = vec![Some(" Hello ".to_string()), None, Some("world. ".to_string())];
    assert_eq!(join_segments(&segs), "Hello world.");
    let segs = vec![Some("a".to_string()), Some("b".to_string()), None];
    assert_eq!(join_segments(&segs), "a b");
    assert_eq!(join_segments(&vec![]), "");
}

#[test]
fn trim_handles_unicode_whitespace() {
    assert_eq!(trim_str("\u{3000} hi\u{a0}there \u{2029}\n"), "hi\u{a0}there");
    assert_eq!(trim_str("   "), "");
    assert_eq!(trim_str(""), "");
    assert_eq!(trim_str("x"), "x");
}

#[test]
fn string_searches() {
    assert!(contains("openai/whisper-1", "whisper"));
    assert!(!contains("whispe", "whisper"));
    assert!(contains("abc", ""));
    assert!(starts_with("169.254.0.1", "169.254."));
    assert!(!starts_with("169.25", "169.254."));
    assert!(same_str("toggle", "toggle"));
    assert!(!same_str("toggle", "Toggle"));
    assert_eq!(preview("abcdef", 3), "abc...");
    assert_eq!(preview("abc", 3), "abc");
}

#[test]
fn lexicographic_sort_matches_std() {
    assert!(str_le("abc", "abd"));
    assert!(str_le("ab", "abc"));
    assert!(!str_le("b", "abc"));
    assert!(str_le("", ""));
    let v: Vec<String> = ["zeta", "Alpha", "alpha", "é", "e", "", "beta", "alp"]
        .iter()
        .map(|s| s.to_string())
        .collect();
    let mut expected = v.clone();
    expected.sort();
    assert_eq!(sort_strings(&v), expected);
}
