use parrot::text::{chars_of, clean};
use parrot::transcribe::{
    model_path, thread_count, transcript, whisper_language, worth_transcribing,
};

#[test]
fn strips_noise_markers_and_normalises_whitespace() {
    assert_eq!(clean("  [BLANK_AUDIO] hello   there \n"), "hello there");
}

#[test]
fn leaves_ordinary_text_alone() {
    assert_eq!(clean(" Open the pod bay doors."), "Open the pod bay doors.");
}

#[test]
fn removes_every_marker() {
    assert_eq!(
        clean("[ Silence ]a[silence] b (silence)[MUSIC] c[ Pause ]"),
        "a b c"
    );
    assert_eq!(clean("[BLANK_AUDIO]"), "");
    assert_eq!(clean(""), "");
}

#[test]
fn markers_are_removed_in_one_pass() {
    assert_eq!(clean("[BLANK[BLANK_AUDIO]_AUDIO]"), "[BLANK_AUDIO]");
    assert_eq!(clean("[  Silence ]"), "[ Silence ]");
}

#[test]
fn unicode_whitespace_collapses() {
    assert_eq!(clean("\u{3000}one\u{a0}\u{2003}two\t\r\nthree\u{85}"), "one two three");
    assert_eq!(clean("a\u{200b}b"), "a\u{200b}b");
}

#[test]
fn cleaned_text_is_tidy() {
    for raw in ["  x  y ", "\n\n", "[MUSIC] x\t\ty [MUSIC]", "é  ü"] {
        let t = clean(raw);
        assert!(!t.starts_with(char::is_whitespace) && !t.ends_with(char::is_whitespace));
        assert!(!t.contains("  "));
        assert!(t.chars().all(|c| c == ' ' || !c.is_whitespace()));
    }
}

#[test]
fn cleaning_twice_changes_nothing() {
    for raw in ["  [BLANK_AUDIO] hello   there \n", " a\tb ", "[MUSIC]", "x [ Pause ] y"] {
        let once = clean(raw);
        assert_eq!(clean(&once), once);
    }
}

#[test]
fn chars_are_kept_in_order() {
    assert_eq!(chars_of("aé😀"), vec!['a', 'é', '😀']);
}

#[test]
fn transcript_joins_and_cleans_segments() {
    let segs = vec![" Hello".to_string(), " world.".to_string(), " [BLANK_AUDIO]".to_string()];
    assert_eq!(transcript(&segs), "Hello world.");
    assert_eq!(transcript(&vec![]), "");
}

#[test]
fn thread_count_is_capped() {
    assert_eq!(thread_count(Some(16)), 8);
    assert_eq!(thread_count(Some(8)), 8);
    assert_eq!(thread_count(Some(2)), 2);
    assert_eq!(thread_count(None), 4);
}

#[test]
fn short_buffers_are_not_transcribed() {
    assert!(!worth_transcribing(3199));
    assert!(worth_transcribing(3200));
    assert!(!worth_transcribing(0));
}

#[test]
fn auto_language_is_left_to_whisper() {
    assert_eq!(whisper_language("auto"), None);
    assert_eq!(whisper_language("en"), Some("en".to_string()));
    assert_eq!(whisper_language("Auto"), Some("Auto".to_string()));
}

#[test]
fn model_path_honours_override() {
    assert_eq!(model_path("/data", "ggml-base.en.bin", None), "/data/models/ggml-base.en.bin");
    assert_eq!(
        model_path("/data", "ggml-base.en.bin", Some("/shared")),
        "/shared/ggml-base.en.bin"
    );
}

#[test]
fn whitespace_set_matches_std() {
    for code in 0u32..=0x3100 {
        if let Some(c) = char::from_u32(code) {
            let raw = format!("a{c}b");
            let expected = if c.is_whitespace() { "a b".to_string() } else { raw.clone() };
            assert_eq!(clean(&raw), expected, "code point {code:#x}");
        }
    }
}
