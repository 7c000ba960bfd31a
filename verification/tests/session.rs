use parrot::paste::{PasteJob, PasteStage};
use parrot::recorder::{RecorderCore, StartStep, TARGET_SAMPLE_RATE};
use parrot::session::{
    after_download, after_load, after_transcription, check_selectable, downloading_status,
    judge_recording, loading_status, paste_failed, stop_failed, verdict_status, DownloadRefusal,
    DownloadStep, RecorderCommand, Session, StatusKind, TranscriptStep, Verdict,
};
use parrot::settings::Settings;
use parrot::shortcut::{
    invalid_accelerator, is_valid_accelerator, plan_shortcut_change, registration_refused,
};

#[test]
fn auto_repeat_starts_the_microphone_once() {
    let mut s = Session::new();
    assert_eq!(s.press(), RecorderCommand::Start);
    assert_eq!(s.press(), RecorderCommand::Nothing);
    assert_eq!(s.press(), RecorderCommand::Nothing);
    assert!(s.is_recording());
    assert_eq!(s.release(), RecorderCommand::Stop);
    assert_eq!(s.release(), RecorderCommand::Nothing);
    assert!(!s.is_recording());
}

#[test]
fn microphone_failure_ends_the_recording() {
    let mut s = Session::new();
    s.press();
    let st = s.recorder_started(Err("no device".to_string()));
    assert_eq!(st.kind, StatusKind::Error);
    assert_eq!(st.detail, "Microphone error: no device");
    assert!(!s.is_recording());
    let st = {
        s.press();
        s.recorder_started(Ok(()))
    };
    assert_eq!(st.kind.name(), "recording");
    assert_eq!(st.detail, "Listening...");
}

#[test]
fn toggle_alternates() {
    let mut s = Session::new();
    assert_eq!(s.toggle(), RecorderCommand::Start);
    assert_eq!(s.toggle(), RecorderCommand::Stop);
    assert_eq!(s.toggle(), RecorderCommand::Start);
}

#[test]
fn one_download_at_a_time() {
    let mut s = Session::new();
    assert!(matches!(s.begin_download("ggml-nope.bin"), Err(DownloadRefusal::UnknownModel(_))));
    assert!(!s.is_downloading());
    let m = s.begin_download("ggml-small.bin").unwrap();
    assert_eq!(m.id, "small");
    let refused = s.begin_download("ggml-tiny.en.bin").unwrap_err();
    assert_eq!(refused.message(), "a download is already running");
    s.download_finished();
    assert!(s.begin_download("ggml-tiny.en.bin").is_ok());
    let unknown = Session::new().begin_download("x.bin").unwrap_err();
    assert_eq!(unknown.message(), "unknown model: x.bin");
}

#[test]
fn recordings_are_judged_in_order() {
    assert_eq!(judge_recording(249, false), Verdict::TooShort);
    assert_eq!(judge_recording(100, true), Verdict::TooShort);
    assert_eq!(judge_recording(250, true), Verdict::Silent);
    assert_eq!(judge_recording(250, false), Verdict::Transcribe);
    let st = verdict_status(Verdict::TooShort).unwrap();
    assert_eq!((st.kind, st.detail.as_str()), (StatusKind::Idle, "Too short - hold the key while speaking"));
    assert!(verdict_status(Verdict::Silent).is_none());
    assert_eq!(verdict_status(Verdict::Transcribe).unwrap().kind.name(), "transcribing");
    assert_eq!(stop_failed("gone").detail, "Could not stop recording: gone");
}

#[test]
fn transcription_outcomes() {
    match after_transcription(None) {
        TranscriptStep::Report(s) => assert_eq!(s.detail, "model is still loading"),
        _ => panic!(),
    }
    match after_transcription(Some(Ok(String::new()))) {
        TranscriptStep::Report(s) => {
            assert_eq!(s.kind, StatusKind::Idle);
            assert_eq!(s.detail, "Nothing recognised");
        }
        _ => panic!(),
    }
    match after_transcription(Some(Ok("hi".to_string()))) {
        TranscriptStep::Paste(t) => assert_eq!(t, "hi"),
        _ => panic!(),
    }
    match after_transcription(Some(Err("boom".to_string()))) {
        TranscriptStep::Report(s) => assert_eq!((s.kind, s.detail.as_str()), (StatusKind::Error, "boom")),
        _ => panic!(),
    }
    assert_eq!(paste_failed("x").detail, "Paste failed: x");
}

#[test]
fn download_and_load_outcomes() {
    assert_eq!(downloading_status("a.bin").detail, "Downloading a.bin...");
    assert!(matches!(after_download(Ok(()), "a.bin", "a.bin"), DownloadStep::LoadModel));
    match after_download(Ok(()), "a.bin", "b.bin") {
        DownloadStep::Report(s) => assert_eq!(s.detail, "a.bin downloaded"),
        _ => panic!(),
    }
    match after_download(Err("timeout".to_string()), "a.bin", "a.bin") {
        DownloadStep::Report(s) => assert_eq!((s.kind, s.detail.as_str()), (StatusKind::Error, "Download failed: timeout")),
        _ => panic!(),
    }
    assert_eq!(loading_status("m.bin").detail, "Loading m.bin...");
    let s = after_load(Ok(()), true, "m.bin", "Ctrl+Alt+Space");
    assert_eq!(s.detail, "Ready - hold Ctrl+Alt+Space to dictate");
    let s = after_load(Err("bad".to_string()), false, "m.bin", "x");
    assert_eq!((s.kind.name(), s.detail.as_str()), ("no-model", "No speech model yet - download m.bin to start"));
    let s = after_load(Err("bad".to_string()), true, "m.bin", "x");
    assert_eq!((s.kind, s.detail.as_str()), (StatusKind::Error, "bad"));
    assert!(check_selectable("ggml-base.en.bin").is_ok());
    assert_eq!(check_selectable("zzz").unwrap_err(), "unknown model: zzz");
}

#[test]
fn recorder_starts_once_and_stops_cleanly() {
    let mut core: RecorderCore<&'static str> = RecorderCore::new();
    assert_eq!(core.start_step(), StartStep::OpenStream);
    assert_eq!(core.opened("stream", 48_000), None);
    assert_eq!(core.start_step(), StartStep::AlreadyRunning);
    assert!(core.is_capturing());
    assert_eq!(core.stop(), (Some("stream"), 48_000));
    assert_eq!(core.stop(), (None, TARGET_SAMPLE_RATE));
    assert!(!core.is_capturing());
}

#[test]
fn paste_runs_the_steps_in_order_and_restores() {
    let mut job = PasteJob::new("hello");
    let mut seen = Vec::new();
    loop {
        let st = job.stage();
        seen.push(st);
        match st {
            PasteStage::Done => break,
            PasteStage::SaveClipboard => job.saved(Some("old".to_string())),
            _ => job.report(Ok(())),
        }
    }
    assert_eq!(
        seen,
        vec![
            PasteStage::OpenClipboard,
            PasteStage::SaveClipboard,
            PasteStage::WriteClipboard,
            PasteStage::Settle,
            PasteStage::OpenKeyboard,
            PasteStage::PressModifier,
            PasteStage::ClickPaste,
            PasteStage::ReleaseModifier,
            PasteStage::Done
        ]
    );
    assert_eq!(job.finish(), (Ok(()), Some("old".to_string())));
}

#[test]
fn failed_click_still_releases_the_modifier() {
    let mut job = PasteJob::new("x");
    job.report(Ok(()));
    job.saved(None);
    job.report(Ok(()));
    job.report(Ok(()));
    job.report(Ok(()));
    job.report(Ok(()));
    assert_eq!(job.stage(), PasteStage::ClickPaste);
    job.report(Err("no key".to_string()));
    assert_eq!(job.stage(), PasteStage::ReleaseModifier);
    job.report(Err("stuck".to_string()));
    assert_eq!(job.stage(), PasteStage::Done);
    assert_eq!(job.finish(), (Err("paste key failed: no key".to_string()), None));
}

#[test]
fn failed_press_and_clipboard_errors() {
    let mut job = PasteJob::new("x");
    job.report(Err("busy".to_string()));
    assert_eq!(job.stage(), PasteStage::Done);
    assert_eq!(job.finish().0, Err("clipboard unavailable: busy".to_string()));

    let mut job = PasteJob::new("x");
    job.report(Ok(()));
    job.saved(Some("prev".to_string()));
    job.report(Ok(()));
    job.report(Ok(()));
    job.report(Ok(()));
    job.report(Err("denied".to_string()));
    assert_eq!(job.stage(), PasteStage::Done);
    assert_eq!(job.finish(), (Err("modifier press failed: denied".to_string()), None));

    let mut job = PasteJob::new("x");
    job.report(Ok(()));
    job.report(Ok(()));
    job.report(Err("locked".to_string()));
    assert_eq!(job.finish().0, Err("could not write clipboard: locked".to_string()));
}

#[test]
fn missing_input_device_is_reported() {
    let mut job = PasteJob::new("x");
    for _ in 0..4 {
        job.report(Ok(()));
    }
    assert_eq!(job.stage(), PasteStage::OpenKeyboard);
    job.report(Err("no display".to_string()));
    assert_eq!(job.finish(), (Err("could not open input device: no display".to_string()), None));
}

#[test]
fn empty_text_pastes_nothing() {
    let job = PasteJob::new("");
    assert_eq!(job.stage(), PasteStage::Done);
    assert_eq!(job.finish(), (Ok(()), None));
}

#[test]
fn release_error_reported_after_good_click() {
    let mut job = PasteJob::new("x");
    for _ in 0..6 {
        job.report(Ok(()));
    }
    job.report(Ok(()));
    job.report(Err("up".to_string()));
    assert_eq!(job.finish().0, Err("modifier release failed: up".to_string()));
}

#[test]
fn settings_defaults_and_changes() {
    let d = Settings::default();
    assert_eq!(d.shortcut, "Ctrl+Alt+Space");
    assert_eq!(d.language, "en");
    assert_eq!(d.input_device, None);
    assert_eq!(d.model_file, "ggml-base.en.bin");
    assert!(!d.save_debug_wav);
    let mut s = Settings::from_stored(None);
    assert_eq!(s.model_file, "ggml-base.en.bin");
    assert_eq!(s.set_input_device("USB Mic".to_string()), Some("USB Mic".to_string()));
    assert_eq!(s.set_input_device(String::new()), None);
    assert_eq!(s.input_device, None);
    s.set_language("de".to_string());
    s.set_debug_wav(true);
    s.set_shortcut("Ctrl+Shift+D".to_string());
    s.set_model_file("ggml-small.bin".to_string());
    let c = s.duplicate();
    let cloned = s.clone();
    assert_eq!(cloned.model_file, c.model_file);
    assert_eq!((c.language.as_str(), c.save_debug_wav, c.shortcut.as_str(), c.model_file.as_str()),
        ("de", true, "Ctrl+Shift+D", "ggml-small.bin"));
    let kept = Settings::from_stored(Some(c));
    assert_eq!(kept.language, "de");
    assert_eq!(Settings::path("/cfg"), "/cfg/settings.json");
}

#[test]
fn accelerators_are_checked() {
    assert!(is_valid_accelerator("Ctrl+Alt+Space"));
    assert!(is_valid_accelerator("shift+alt+KeyQ"));
    assert!(!is_valid_accelerator("Ctrl+Alt+"));
    assert!(!is_valid_accelerator("shift+KeyQ+alt"));
    assert!(!is_valid_accelerator("Hyper+Q"));
    let plan = plan_shortcut_change("Ctrl+Alt+Space", "Ctrl+Shift+D").unwrap();
    assert!(plan.previous_is_bound);
    let plan = plan_shortcut_change("garbage+", "Ctrl+Shift+D").unwrap();
    assert!(!plan.previous_is_bound);
    assert_eq!(
        plan_shortcut_change("Ctrl+Alt+Space", "Ctrl++").err().unwrap(),
        "not a valid accelerator: Ctrl++ (try Ctrl+Alt+Space)"
    );
    assert_eq!(invalid_accelerator("Q+"), "not a valid accelerator: Q+ (try Ctrl+Alt+Space)");
    assert_eq!(
        registration_refused("F9", "taken"),
        "could not register F9: taken (another app may already own it)"
    );
}
