use parrot::catalog::{catalog, describe_models, spec_for};
use parrot::download::{
    announced_size, model_url, parse_u64, partial_path, progress_percent, DownloadError,
    DownloadTally, ProgressReporter,
};
use parrot::download::{FetchAction, FetchJob};
use std::path::Path;

#[test]
fn partial_appends_rather_than_replacing_extension() {
    let p = partial_path("/models/ggml-base.en.bin");
    assert!(Path::new(&p).ends_with("ggml-base.en.bin.partial"));
}

#[test]
fn catalog_lookup_matches_by_filename() {
    assert_eq!(spec_for("ggml-base.en.bin").unwrap().id, "base.en");
    assert!(spec_for("ggml-nonexistent.bin").is_none());
}

#[test]
fn partial_path_keeps_directory() {
    assert_eq!(partial_path("/models/ggml-base.en.bin"), "/models/ggml-base.en.bin.partial");
}

#[test]
fn partial_path_without_file_name_uses_model() {
    assert_eq!(partial_path("/"), "/model.partial");
}

#[test]
fn every_catalog_entry_is_found_by_its_file() {
    for m in catalog() {
        let found = spec_for(m.file).unwrap();
        assert_eq!(found.id, m.id);
        assert_eq!(found.size_mb, m.size_mb);
    }
    assert_eq!(catalog().len(), 4);
    assert_eq!(catalog()[0].file, "ggml-tiny.en.bin");
    assert_eq!(catalog()[3].label, "Small (multilingual)");
}

#[test]
fn model_list_marks_installed_and_active() {
    let rows = describe_models("ggml-small.bin", &vec![true, false]);
    assert_eq!(rows.len(), 4);
    assert!(rows[0].installed && !rows[0].active);
    assert!(!rows[1].installed);
    assert!(!rows[3].installed && rows[3].active);
    assert_eq!(rows[1].note, "Good balance - the default");
    assert_eq!(rows[2].size_mb, 466);
}

#[test]
fn url_names_the_model_file() {
    assert_eq!(
        model_url("ggml-tiny.en.bin").unwrap(),
        "https://huggingface.co/ggerganov/whisper.cpp/resolve/main/ggml-tiny.en.bin"
    );
    match model_url("ggml-huge.bin") {
        Err(DownloadError::UnknownModel(f)) => assert_eq!(f, "ggml-huge.bin"),
        other => panic!("unexpected {other:?}"),
    }
}

#[test]
fn parses_numbers_like_std() {
    for s in ["0", "123", "+5", "", "+", "-1", " 1", "1 ", "12a", "18446744073709551615",
        "18446744073709551616", "99999999999999999999", "0007", "+0"] {
        assert_eq!(parse_u64(s), s.parse::<u64>().ok(), "input {s:?}");
    }
}

#[test]
fn missing_or_bad_content_length_is_zero() {
    assert_eq!(announced_size(None), 0);
    assert_eq!(announced_size(Some("abc")), 0);
    assert_eq!(announced_size(Some("148897792")), 148_897_792);
}

#[test]
fn percent_is_whole_and_wraps_like_a_byte() {
    assert_eq!(progress_percent(50, 200), 25);
    assert_eq!(progress_percent(199, 200), 99);
    assert_eq!(progress_percent(200, 200), 100);
    assert_eq!(progress_percent(10, 0), 0);
    assert_eq!(progress_percent(300, 100), 44);
}

#[test]
fn progress_is_reported_once_per_percent() {
    let mut r = ProgressReporter::new();
    assert_eq!(r.update(0, 1000), Some(0));
    assert_eq!(r.update(5, 1000), None);
    assert_eq!(r.update(10, 1000), Some(1));
    assert_eq!(r.update(19, 1000), None);
    assert_eq!(r.update(1000, 1000), Some(100));
}

#[test]
fn short_download_is_rejected() {
    let mut t = DownloadTally::new(100);
    assert_eq!(t.add(60), (60, 100));
    assert!(matches!(t.finish(), Err(DownloadError::Incomplete { received: 60, total: 100 })));
    assert_eq!(t.add(40), (100, 100));
    assert!(t.finish().is_ok());
    assert_eq!(t.received(), 100);
}

#[test]
fn unknown_size_accepts_any_length() {
    let mut t = DownloadTally::new(0);
    t.add(12345);
    assert!(t.finish().is_ok());
}


#[test]
fn error_messages_name_the_cause() {
    assert_eq!(DownloadError::UnknownModel("x.bin".to_string()).message(), "unknown model: x.bin");
    assert_eq!(
        DownloadError::Incomplete { received: 1024, total: 148_897_792 }.message(),
        "download incomplete: got 1024 of 148897792 bytes"
    );
    assert_eq!(
        DownloadError::Incomplete { received: 0, total: u64::MAX }.message(),
        format!("download incomplete: got 0 of {} bytes", u64::MAX)
    );
    assert_eq!(DownloadError::Unreachable("dns".to_string()).message(), "could not reach Hugging Face: dns");
    assert_eq!(DownloadError::Interrupted("reset".to_string()).message(), "download interrupted: reset");
    assert_eq!(DownloadError::WriteFailed("full".to_string()).message(), "could not write model: full");
    assert_eq!(DownloadError::Io("denied".to_string()).message(), "denied");
}

#[test]
fn complete_download_is_renamed() {
    let mut job = FetchJob::new(10);
    assert!(matches!(job.read(Ok(6)), FetchAction::Write(6)));
    assert!(matches!(job.written(6, Ok(())), FetchAction::Progress(6, 10)));
    assert!(matches!(job.read(Ok(4)), FetchAction::Write(4)));
    assert!(matches!(job.written(4, Ok(())), FetchAction::Progress(10, 10)));
    assert!(matches!(job.read(Ok(0)), FetchAction::Flush));
    assert!(matches!(job.flushed(Ok(())), FetchAction::Rename));
    assert_eq!(job.received(), 10);
}

#[test]
fn short_download_is_removed_not_renamed() {
    let mut job = FetchJob::new(10);
    job.written(6, Ok(()));
    match job.flushed(Ok(())) {
        FetchAction::Fail { error, remove_partial } => {
            assert!(remove_partial);
            assert_eq!(error.message(), "download incomplete: got 6 of 10 bytes");
        }
        other => panic!("unexpected {other:?}"),
    }
}

#[test]
fn failures_remove_the_partial_file() {
    let mut job = FetchJob::new(0);
    match job.read(Err("reset".to_string())) {
        FetchAction::Fail { error, remove_partial } => {
            assert!(remove_partial);
            assert_eq!(error.message(), "download interrupted: reset");
        }
        other => panic!("unexpected {other:?}"),
    }
    match job.written(3, Err("disk full".to_string())) {
        FetchAction::Fail { error, remove_partial } => {
            assert!(remove_partial);
            assert_eq!(error.message(), "could not write model: disk full");
        }
        other => panic!("unexpected {other:?}"),
    }
    assert_eq!(job.received(), 0);
    match job.flushed(Err("io".to_string())) {
        FetchAction::Fail { error, remove_partial } => {
            assert!(!remove_partial);
            assert_eq!(error.message(), "io");
        }
        other => panic!("unexpected {other:?}"),
    }
    assert!(matches!(job.flushed(Ok(())), FetchAction::Rename));
}

#[test]
fn decimal_text_reads_back() {
    for n in [0u64, 7, 10, 99, 100, 123456789, u64::MAX] {
        let msg = DownloadError::Incomplete { received: n, total: 1 }.message();
        let digits = msg.trim_start_matches("download incomplete: got ").split(' ').next().unwrap();
        assert_eq!(parse_u64(digits), Some(n));
    }
}
