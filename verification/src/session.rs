//! The dictation session: what the hotkey, the settings window and the
//! background work decide, and what the user is told.
//!
//! The application around the library holds a `Session` behind a lock,
//! performs the actions it asks for (starting and stopping the microphone,
//! running whisper, pasting, downloading, loading a model) and reports the
//! outcomes back.

use vstd::prelude::*;
use crate::catalog::{model_for, spec_for, ModelSpec};
use crate::catalog::same_text;

verus! {

/// Ignore taps shorter than this many milliseconds. Without it, every
/// accidental brush of the hotkey costs a whisper pass on a fifth of a
/// second of nothing.
pub const MIN_RECORDING_MS: u128 = 250;

// ------------------------------------------------------------- statuses

/// The states the settings window shows.
#[derive(Clone, Copy, Debug, PartialEq, Eq, Structural)]
pub enum StatusKind {
    Recording,
    Transcribing,
    Idle,
    Loading,
    NoModel,
    Error,
}

impl StatusKind {
    /// The name the settings window knows the state by.
    pub fn name(&self) -> (name: &'static str)
        ensures
            name@ == status_name(*self),
    {
        match self {
            StatusKind::Recording => "recording",
            StatusKind::Transcribing => "transcribing",
            StatusKind::Idle => "idle",
            StatusKind::Loading => "loading",
            StatusKind::NoModel => "no-model",
            StatusKind::Error => "error",
        }
    }
}

/// The name of a state.
pub open spec fn status_name(kind: StatusKind) -> Seq<char> {
    match kind {
        StatusKind::Recording => "recording"@,
        StatusKind::Transcribing => "transcribing"@,
        StatusKind::Idle => "idle"@,
        StatusKind::Loading => "loading"@,
        StatusKind::NoModel => "no-model"@,
        StatusKind::Error => "error"@,
    }
}

/// A status line: a state and a message for the user.
#[derive(Debug)]
pub struct Status {
    pub kind: StatusKind,
    pub detail: String,
}

/// A status line as a state and a sequence of characters.
pub open spec fn status_is(s: Status, kind: StatusKind, detail: Seq<char>) -> bool {
    s.kind == kind && s.detail@ == detail
}

/// A status line with `detail` as its message.
fn status(kind: StatusKind, detail: &str) -> (s: Status)
    ensures
        status_is(s, kind, detail@),
{
    Status { kind, detail: String::from_str(detail) }
}

/// A status line whose message is `first` followed by `second`.
fn status2(kind: StatusKind, first: &str, second: &str) -> (s: Status)
    ensures
        status_is(s, kind, first@ + second@),
{
    let mut detail = String::from_str(first);
    detail.append(second);
    Status { kind, detail }
}

/// A status line whose message is `prefix` followed by `rest` and `suffix`.
fn status3(kind: StatusKind, prefix: &str, rest: &str, suffix: &str) -> (s: Status)
    ensures
        status_is(s, kind, prefix@ + rest@ + suffix@),
{
    let mut detail = String::from_str(prefix);
    detail.append(rest);
    detail.append(suffix);
    Status { kind, detail }
}

// -------------------------------------------------------------- session

/// What to do with the microphone.
#[derive(Clone, Copy, Debug, PartialEq, Eq, Structural)]
pub enum RecorderCommand {
    /// Nothing: the event is a repeat or comes at the wrong time.
    Nothing,
    /// Open the microphone and start capturing.
    Start,
    /// Stop capturing and process what was captured.
    Stop,
}

/// The flags of a session.
pub struct SessionView {
    /// Between hotkey press and release.
    pub recording: bool,
    /// A model download is running.
    pub downloading: bool,
}

/// The session after the hotkey goes down.
pub open spec fn after_press(s: SessionView) -> SessionView {
    SessionView { recording: true, ..s }
}

/// What the hotkey going down asks of the microphone: holding a key emits a
/// stream of presses, and only the first one counts.
pub open spec fn press_command(s: SessionView) -> RecorderCommand {
    if s.recording {
        RecorderCommand::Nothing
    } else {
        RecorderCommand::Start
    }
}

/// The session after the hotkey comes up.
pub open spec fn after_release(s: SessionView) -> SessionView {
    SessionView { recording: false, ..s }
}

/// What the hotkey coming up asks of the microphone.
pub open spec fn release_command(s: SessionView) -> RecorderCommand {
    if s.recording {
        RecorderCommand::Stop
    } else {
        RecorderCommand::Nothing
    }
}

/// A download of `file` may start: the catalogue lists it and no other
/// download is running.
pub open spec fn download_admitted(s: SessionView, file: Seq<char>) -> bool {
    model_for(file) is Some && !s.downloading
}

/// The session once a download has started.
pub open spec fn after_download_starts(s: SessionView) -> SessionView {
    SessionView { downloading: true, ..s }
}

/// The session once the running download has ended.
pub open spec fn after_download_ends(s: SessionView) -> SessionView {
    SessionView { downloading: false, ..s }
}

/// Why a download was not started.
#[derive(Debug)]
pub enum DownloadRefusal {
    /// The file is not in the catalogue.
    UnknownModel(String),
    /// Another download is running; two would race for the same file.
    AlreadyRunning,
}

/// The message for a refused download.
pub open spec fn refusal_message(r: DownloadRefusal) -> Seq<char> {
    match r {
        DownloadRefusal::UnknownModel(file) => "unknown model: "@ + file@,
        DownloadRefusal::AlreadyRunning => "a download is already running"@,
    }
}

impl DownloadRefusal {
    /// What the settings window is told.
    pub fn message(&self) -> (msg: String)
        ensures
            msg@ == refusal_message(*self),
    {
        match self {
            DownloadRefusal::UnknownModel(file) => {
                let mut msg = String::from_str("unknown model: ");
                msg.append(file.as_str());
                msg
            },
            DownloadRefusal::AlreadyRunning => String::from_str("a download is already running"),
        }
    }
}

/// The message for a model file the catalogue does not list.
pub fn unknown_model_message(file: &str) -> (msg: String)
    ensures
        msg@ == "unknown model: "@ + file@,
{
    let mut msg = String::from_str("unknown model: ");
    msg.append(file);
    msg
}

/// The dictation session.
pub struct Session {
    recording: bool,
    downloading: bool,
}

impl View for Session {
    type V = SessionView;

    closed spec fn view(&self) -> SessionView {
        SessionView { recording: self.recording, downloading: self.downloading }
    }
}

impl Session {
    /// A session with no recording and no download.
    pub fn new() -> (s: Session)
        ensures
            !s@.recording,
            !s@.downloading,
    {
        Session { recording: false, downloading: false }
    }

    /// Whether the hotkey is held.
    pub fn is_recording(&self) -> (r: bool)
        ensures
            r == self@.recording,
    {
        self.recording
    }

    /// Whether a download is running.
    pub fn is_downloading(&self) -> (r: bool)
        ensures
            r == self@.downloading,
    {
        self.downloading
    }

    /// The hotkey went down.
    pub fn press(&mut self) -> (cmd: RecorderCommand)
        ensures
            final(self)@ == after_press(old(self)@),
            cmd == press_command(old(self)@),
    {
        let was = self.recording;
        self.recording = true;
        if was {
            RecorderCommand::Nothing
        } else {
            RecorderCommand::Start
        }
    }

    /// The microphone answered a `Start`: on success the user is told that
    /// the app is listening; on failure the session stops recording and the
    /// user is told why.
    pub fn recorder_started(&mut self, result: Result<(), String>) -> (s: Status)
        ensures
            match result {
                Ok(()) => final(self)@ == old(self)@ && status_is(
                    s,
                    StatusKind::Recording,
                    "Listening..."@,
                ),
                Err(e) => final(self)@ == after_release(old(self)@) && status_is(
                    s,
                    StatusKind::Error,
                    "Microphone error: "@ + e@,
                ),
            },
    {
        match result {
            Ok(()) => status(StatusKind::Recording, "Listening..."),
            Err(e) => {
                self.recording = false;
                status2(StatusKind::Error, "Microphone error: ", e.as_str())
            },
        }
    }

    /// The hotkey came up.
    pub fn release(&mut self) -> (cmd: RecorderCommand)
        ensures
            final(self)@ == after_release(old(self)@),
            cmd == release_command(old(self)@),
    {
        let was = self.recording;
        self.recording = false;
        if was {
            RecorderCommand::Stop
        } else {
            RecorderCommand::Nothing
        }
    }

    /// The settings window's record button: stops a recording in progress,
    /// starts one otherwise. This is how the pipeline is tested before the
    /// global shortcut is trusted.
    pub fn toggle(&mut self) -> (cmd: RecorderCommand)
        ensures
            old(self)@.recording ==> final(self)@ == after_release(old(self)@) && cmd
                == release_command(old(self)@),
            !old(self)@.recording ==> final(self)@ == after_press(old(self)@) && cmd
                == press_command(old(self)@),
    {
        if self.recording {
            self.release()
        } else {
            self.press()
        }
    }

    /// A download of `file` was asked for. It starts, with the catalogue
    /// entry, when the catalogue lists the file and no download is running.
    pub fn begin_download(&mut self, file: &str) -> (started: Result<ModelSpec, DownloadRefusal>)
        ensures
            started is Ok <==> download_admitted(old(self)@, file@),
            match started {
                Ok(m) => model_for(file@) == Some(m@) && final(self)@ == after_download_starts(
                    old(self)@,
                ),
                Err(DownloadRefusal::UnknownModel(f)) => model_for(file@) is None && f@ == file@
                    && final(self)@ == old(self)@,
                Err(DownloadRefusal::AlreadyRunning) => model_for(file@) is Some
                    && old(self)@.downloading && final(self)@ == old(self)@,
            },
    {
        match spec_for(file) {
            None => Err(DownloadRefusal::UnknownModel(String::from_str(file))),
            Some(m) => {
                if self.downloading {
                    Err(DownloadRefusal::AlreadyRunning)
                } else {
                    self.downloading = true;
                    Ok(m)
                }
            },
        }
    }

    /// The running download ended, however it ended.
    pub fn download_finished(&mut self)
        ensures
            final(self)@ == after_download_ends(old(self)@),
    {
        self.downloading = false;
    }
}

// ------------------------------------------------------------ laws

/// Key auto-repeat is debounced: holding the hotkey emits a stream of
/// presses, and only the first one starts the microphone; the ones after it
/// ask nothing and change nothing.
pub proof fn lemma_auto_repeat_is_debounced(s: SessionView)
    ensures
        !s.recording ==> press_command(s) == RecorderCommand::Start,
        press_command(after_press(s)) == RecorderCommand::Nothing,
        after_press(after_press(s)) == after_press(s),
{
}

/// A release with no recording in progress asks nothing of the microphone
/// and changes nothing.
pub proof fn lemma_stray_release_is_ignored(s: SessionView)
    requires
        !s.recording,
    ensures
        release_command(s) == RecorderCommand::Nothing,
        after_release(s) == s,
{
}

/// Holding the hotkey and letting it go starts the microphone, then stops
/// it, and leaves the session as it was.
pub proof fn lemma_press_then_release(s: SessionView)
    requires
        !s.recording,
    ensures
        press_command(s) == RecorderCommand::Start,
        release_command(after_press(s)) == RecorderCommand::Stop,
        after_release(after_press(s)) == s,
{
}

/// The hotkey never touches a running download, and a download never
/// touches the recording.
pub proof fn lemma_recording_and_download_are_independent(s: SessionView)
    ensures
        after_press(s).downloading == s.downloading,
        after_release(s).downloading == s.downloading,
        after_download_starts(s).recording == s.recording,
        after_download_ends(s).recording == s.recording,
{
}

/// One download at a time: while one runs no other is admitted, whatever
/// the file; once it has ended, any catalogued file is admitted again.
pub proof fn lemma_one_download_at_a_time(s: SessionView, first: Seq<char>, second: Seq<char>)
    requires
        download_admitted(s, first),
    ensures
        !download_admitted(after_download_starts(s), second),
        download_admitted(after_download_ends(after_download_starts(s)), second) <==> model_for(
            second,
        ) is Some,
{
}

// ------------------------------------------------------ after recording

/// What to do with a finished recording.
#[derive(Clone, Copy, Debug, PartialEq, Eq, Structural)]
pub enum Verdict {
    /// Held for less than `MIN_RECORDING_MS`: tell the user and stop.
    TooShort,
    /// Below the silence threshold: whisper hallucinates confidently on
    /// silence, so report the level instead.
    Silent,
    /// Worth a whisper pass.
    Transcribe,
}

/// What becomes of a recording held for `held_ms` milliseconds whose peak
/// level is (`silent`) or is not below the silence threshold.
pub open spec fn verdict_for(held_ms: u128, silent: bool) -> Verdict {
    if held_ms < MIN_RECORDING_MS {
        Verdict::TooShort
    } else if silent {
        Verdict::Silent
    } else {
        Verdict::Transcribe
    }
}

/// A recording is judged by its length first and its level second, and
/// nothing else: shorter than 250 ms is too short whatever its level; held
/// at least 250 ms, it is transcribed exactly when its peak is not below
/// the silence threshold, however long it was held.
pub proof fn lemma_verdict_rules(held_ms: u128, silent: bool)
    ensures
        held_ms < 250 ==> verdict_for(held_ms, silent) == Verdict::TooShort,
        held_ms >= 250 && !silent ==> verdict_for(held_ms, silent) == Verdict::Transcribe,
        held_ms >= 250 && silent ==> verdict_for(held_ms, silent) == Verdict::Silent,
        verdict_for(held_ms, silent) == Verdict::Transcribe <==> (held_ms >= 250 && !silent),
{
}

/// Judges a finished recording.
pub fn judge_recording(held_ms: u128, silent: bool) -> (v: Verdict)
    ensures
        v == verdict_for(held_ms, silent),
{
    if held_ms < MIN_RECORDING_MS {
        Verdict::TooShort
    } else if silent {
        Verdict::Silent
    } else {
        Verdict::Transcribe
    }
}

/// The status line for a verdict, where it has a fixed one: the silent
/// verdict's line carries the measured level and is written by the caller.
pub fn verdict_status(v: Verdict) -> (s: Option<Status>)
    ensures
        match v {
            Verdict::TooShort => s matches Some(t) && status_is(
                t,
                StatusKind::Idle,
                "Too short - hold the key while speaking"@,
            ),
            Verdict::Silent => s is None,
            Verdict::Transcribe => s matches Some(t) && status_is(
                t,
                StatusKind::Transcribing,
                "Transcribing..."@,
            ),
        },
{
    match v {
        Verdict::TooShort => Some(status(StatusKind::Idle, "Too short - hold the key while speaking")),
        Verdict::Silent => None,
        Verdict::Transcribe => Some(status(StatusKind::Transcribing, "Transcribing...")),
    }
}

/// The status line when the microphone could not be stopped.
pub fn stop_failed(reason: &str) -> (s: Status)
    ensures
        status_is(s, StatusKind::Error, "Could not stop recording: "@ + reason@),
{
    status2(StatusKind::Error, "Could not stop recording: ", reason)
}

/// What to do after a whisper pass.
#[derive(Debug)]
pub enum TranscriptStep {
    /// Paste this text into the focused application.
    Paste(String),
    /// Nothing to paste; show this status line.
    Report(Status),
}

/// What follows a whisper pass: `None` when no model was loaded, otherwise
/// the transcript or the error of the pass.
pub fn after_transcription(outcome: Option<Result<String, String>>) -> (step: TranscriptStep)
    ensures
        match outcome {
            None => step matches TranscriptStep::Report(s) && status_is(
                s,
                StatusKind::Error,
                "model is still loading"@,
            ),
            Some(Ok(text)) => if text@.len() == 0 {
                step matches TranscriptStep::Report(s) && status_is(
                    s,
                    StatusKind::Idle,
                    "Nothing recognised"@,
                )
            } else {
                step matches TranscriptStep::Paste(t) && t@ == text@
            },
            Some(Err(e)) => step matches TranscriptStep::Report(s) && status_is(
                s,
                StatusKind::Error,
                e@,
            ),
        },
{
    match outcome {
        None => TranscriptStep::Report(status(StatusKind::Error, "model is still loading")),
        Some(Ok(text)) => {
            if text.as_str().is_empty() {
                TranscriptStep::Report(status(StatusKind::Idle, "Nothing recognised"))
            } else {
                TranscriptStep::Paste(text)
            }
        },
        Some(Err(e)) => TranscriptStep::Report(Status { kind: StatusKind::Error, detail: e }),
    }
}

/// The status line when pasting failed.
pub fn paste_failed(reason: &str) -> (s: Status)
    ensures
        status_is(s, StatusKind::Error, "Paste failed: "@ + reason@),
{
    status2(StatusKind::Error, "Paste failed: ", reason)
}

// ------------------------------------------------------- models

/// The status line while `file` downloads.
pub fn downloading_status(file: &str) -> (s: Status)
    ensures
        status_is(s, StatusKind::Loading, "Downloading "@ + file@ + "..."@),
{
    status3(StatusKind::Loading, "Downloading ", file, "...")
}

/// What to do when a download has ended.
#[derive(Debug)]
pub enum DownloadStep {
    /// The downloaded model is the one in use: load it.
    LoadModel,
    /// Show this status line.
    Report(Status),
}

/// What follows the end of the download of `file` while `active_file` is
/// the model in use.
pub fn after_download(result: Result<(), String>, file: &str, active_file: &str) -> (step: DownloadStep)
    ensures
        match result {
            Ok(()) => if file@ == active_file@ {
                step is LoadModel
            } else {
                step matches DownloadStep::Report(s) && status_is(
                    s,
                    StatusKind::Idle,
                    file@ + " downloaded"@,
                )
            },
            Err(e) => step matches DownloadStep::Report(s) && status_is(
                s,
                StatusKind::Error,
                "Download failed: "@ + e@,
            ),
        },
{
    match result {
        Ok(()) => {
            if same_text(file, active_file) {
                DownloadStep::LoadModel
            } else {
                DownloadStep::Report(status2(StatusKind::Idle, file, " downloaded"))
            }
        },
        Err(e) => DownloadStep::Report(status2(StatusKind::Error, "Download failed: ", e.as_str())),
    }
}

/// The status line while `model_file` loads.
pub fn loading_status(model_file: &str) -> (s: Status)
    ensures
        status_is(s, StatusKind::Loading, "Loading "@ + model_file@ + "..."@),
{
    status3(StatusKind::Loading, "Loading ", model_file, "...")
}

/// The status line after loading `model_file`: ready (naming the hotkey)
/// when it loaded, "no model" when its file is not on disk, the error
/// otherwise.
pub fn after_load(result: Result<(), String>, model_on_disk: bool, model_file: &str, shortcut: &str) -> (s: Status)
    ensures
        match result {
            Ok(()) => status_is(s, StatusKind::Idle, "Ready - hold "@ + shortcut@ + " to dictate"@),
            Err(e) => if !model_on_disk {
                status_is(
                    s,
                    StatusKind::NoModel,
                    "No speech model yet - download "@ + model_file@ + " to start"@,
                )
            } else {
                status_is(s, StatusKind::Error, e@)
            },
        },
{
    match result {
        Ok(()) => status3(StatusKind::Idle, "Ready - hold ", shortcut, " to dictate"),
        Err(e) => {
            if !model_on_disk {
                status3(StatusKind::NoModel, "No speech model yet - download ", model_file, " to start")
            } else {
                Status { kind: StatusKind::Error, detail: e }
            }
        },
    }
}

/// Whether `file` may be selected as the model to use; the message to show
/// when the catalogue does not list it.
pub fn check_selectable(file: &str) -> (ok: Result<(), String>)
    ensures
        match ok {
            Ok(()) => model_for(file@) is Some,
            Err(msg) => model_for(file@) is None && msg@ == "unknown model: "@ + file@,
        },
{
    if spec_for(file).is_none() {
        Err(unknown_model_message(file))
    } else {
        Ok(())
    }
}

} // verus!
