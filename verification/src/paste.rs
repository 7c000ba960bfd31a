//! Getting text into whatever application currently has focus.
//!
//! Per-character typing is visibly slow for a paragraph and drops characters
//! in apps that debounce input, so the text goes on the clipboard and one
//! paste keystroke is synthesised. That stomps the user's clipboard, which is
//! put back afterwards. This module decides the order of those steps and the
//! result; the clipboard and the keystrokes are the application's.

use vstd::prelude::*;

verus! {

/// Give the target application time to notice the new clipboard contents
/// before telling it to paste.
pub const CLIPBOARD_SETTLE_MS: u64 = 60;

/// Give it time to actually read the clipboard before putting the old value
/// back.
pub const RESTORE_DELAY_MS: u64 = 400;

/// The next thing to do.
#[derive(Clone, Copy, Debug, PartialEq, Eq, Structural)]
pub enum PasteStage {
    /// Open the clipboard.
    OpenClipboard,
    /// Read what the clipboard holds, to put it back later.
    SaveClipboard,
    /// Put the text on the clipboard.
    WriteClipboard,
    /// Wait `CLIPBOARD_SETTLE_MS`.
    Settle,
    /// Open the synthetic input device.
    OpenKeyboard,
    /// Press the paste modifier (Ctrl, or Cmd on macOS).
    PressModifier,
    /// Click the `v` key.
    ClickPaste,
    /// Release the paste modifier.
    ReleaseModifier,
    /// Finished; see the outcome.
    Done,
}

/// A paste in progress, as plain values.
pub struct PasteView {
    pub stage: PasteStage,
    /// What the clipboard held before.
    pub previous: Option<Seq<char>>,
    /// The error so far, if any.
    pub error: Option<Seq<char>>,
}

/// The contents of an optional string.
pub open spec fn opt_view(s: Option<String>) -> Option<Seq<char>> {
    match s {
        Some(t) => Some(t@),
        None => None,
    }
}

/// The error text of a step's result.
pub open spec fn err_view(r: Result<(), String>) -> Option<Seq<char>> {
    match r {
        Ok(()) => None,
        Err(e) => Some(e@),
    }
}

/// A finished paste with `error`.
pub open spec fn finished(v: PasteView, error: Option<Seq<char>>) -> PasteView {
    PasteView { stage: PasteStage::Done, error, ..v }
}

/// `e` with `prefix` in front, if there is an `e`.
pub open spec fn prefixed(prefix: Seq<char>, e: Option<Seq<char>>) -> Option<Seq<char>> {
    match e {
        Some(t) => Some(prefix + t),
        None => None,
    }
}

/// The paste after the current stage's step ended with `error` (`None` on
/// success). A failed press ends the paste at once; a failed click still
/// releases the modifier, or the user is left with a stuck Ctrl key, and its
/// error is the one reported.
pub open spec fn advance(v: PasteView, error: Option<Seq<char>>) -> PasteView {
    match v.stage {
        PasteStage::OpenClipboard => if error is Some {
            finished(v, prefixed("clipboard unavailable: "@, error))
        } else {
            PasteView { stage: PasteStage::SaveClipboard, ..v }
        },
        PasteStage::SaveClipboard => PasteView { stage: PasteStage::WriteClipboard, previous: None, ..v },
        PasteStage::WriteClipboard => if error is Some {
            finished(v, prefixed("could not write clipboard: "@, error))
        } else {
            PasteView { stage: PasteStage::Settle, ..v }
        },
        PasteStage::Settle => PasteView { stage: PasteStage::OpenKeyboard, ..v },
        PasteStage::OpenKeyboard => if error is Some {
            finished(v, prefixed("could not open input device: "@, error))
        } else {
            PasteView { stage: PasteStage::PressModifier, ..v }
        },
        PasteStage::PressModifier => if error is Some {
            finished(v, prefixed("modifier press failed: "@, error))
        } else {
            PasteView { stage: PasteStage::ClickPaste, ..v }
        },
        PasteStage::ClickPaste => PasteView {
            stage: PasteStage::ReleaseModifier,
            error: if error is Some {
                prefixed("paste key failed: "@, error)
            } else {
                v.error
            },
            ..v
        },
        PasteStage::ReleaseModifier => if v.error is Some {
            finished(v, v.error)
        } else {
            finished(v, prefixed("modifier release failed: "@, error))
        },
        PasteStage::Done => v,
    }
}

/// The paste after the clipboard's previous contents were read as
/// `previous` (`None` when it held no text).
pub open spec fn saved(v: PasteView, previous: Option<Seq<char>>) -> PasteView {
    if v.stage == PasteStage::SaveClipboard {
        PasteView { stage: PasteStage::WriteClipboard, previous, ..v }
    } else {
        v
    }
}

/// A paste of `text`: nothing to do for empty text.
pub open spec fn paste_start(text: Seq<char>) -> PasteView {
    PasteView {
        stage: if text.len() == 0 {
            PasteStage::Done
        } else {
            PasteStage::OpenClipboard
        },
        previous: None,
        error: None,
    }
}

/// The text to put back on the clipboard after a paste: what it held
/// before, and only when the paste succeeded.
pub open spec fn restore_of(v: PasteView) -> Option<Seq<char>> {
    if v.error is None {
        v.previous
    } else {
        None
    }
}

/// A paste in progress.
pub struct PasteJob {
    stage: PasteStage,
    previous: Option<String>,
    error: Option<String>,
}

impl View for PasteJob {
    type V = PasteView;

    closed spec fn view(&self) -> PasteView {
        PasteView { stage: self.stage, previous: opt_view(self.previous), error: opt_view(self.error) }
    }
}

/// `prefix` followed by `e`.
fn with_prefix(prefix: &str, e: String) -> (s: String)
    ensures
        s@ == prefix@ + e@,
{
    let mut s = String::from_str(prefix);
    s.append(e.as_str());
    s
}

impl PasteJob {
    /// A paste of `text`.
    pub fn new(text: &str) -> (job: PasteJob)
        ensures
            job@ == paste_start(text@),
    {
        let stage = if text.is_empty() {
            PasteStage::Done
        } else {
            PasteStage::OpenClipboard
        };
        PasteJob { stage, previous: None, error: None }
    }

    /// What to do next.
    pub fn stage(&self) -> (stage: PasteStage)
        ensures
            stage == self@.stage,
    {
        self.stage
    }

    /// The current stage's step ended with `result`.
    pub fn report(&mut self, result: Result<(), String>)
        ensures
            final(self)@ == advance(old(self)@, err_view(result)),
    {
        match self.stage {
            PasteStage::OpenClipboard => match result {
                Ok(()) => {
                    self.stage = PasteStage::SaveClipboard;
                },
                Err(e) => {
                    self.error = Some(with_prefix("clipboard unavailable: ", e));
                    self.stage = PasteStage::Done;
                },
            },
            PasteStage::SaveClipboard => {
                self.previous = None;
                self.stage = PasteStage::WriteClipboard;
            },
            PasteStage::WriteClipboard => match result {
                Ok(()) => {
                    self.stage = PasteStage::Settle;
                },
                Err(e) => {
                    self.error = Some(with_prefix("could not write clipboard: ", e));
                    self.stage = PasteStage::Done;
                },
            },
            PasteStage::Settle => {
                self.stage = PasteStage::OpenKeyboard;
            },
            PasteStage::OpenKeyboard => match result {
                Ok(()) => {
                    self.stage = PasteStage::PressModifier;
                },
                Err(e) => {
                    self.error = Some(with_prefix("could not open input device: ", e));
                    self.stage = PasteStage::Done;
                },
            },
            PasteStage::PressModifier => match result {
                Ok(()) => {
                    self.stage = PasteStage::ClickPaste;
                },
                Err(e) => {
                    self.error = Some(with_prefix("modifier press failed: ", e));
                    self.stage = PasteStage::Done;
                },
            },
            PasteStage::ClickPaste => {
                match result {
                    Ok(()) => {},
                    Err(e) => {
                        self.error = Some(with_prefix("paste key failed: ", e));
                    },
                }
                self.stage = PasteStage::ReleaseModifier;
            },
            PasteStage::ReleaseModifier => {
                if self.error.is_none() {
                    match result {
                        Ok(()) => {},
                        Err(e) => {
                            self.error = Some(with_prefix("modifier release failed: ", e));
                        },
                    }
                }
                self.stage = PasteStage::Done;
            },
            PasteStage::Done => {},
        }
    }

    /// The clipboard's previous contents were read: `previous`, or `None`
    /// when it held no text or could not be read.
    pub fn saved(&mut self, previous: Option<String>)
        ensures
            final(self)@ == saved(old(self)@, opt_view(previous)),
    {
        if self.stage == PasteStage::SaveClipboard {
            self.previous = previous;
            self.stage = PasteStage::WriteClipboard;
        }
    }

    /// The result of a finished paste, and the text to put back on the
    /// clipboard `RESTORE_DELAY_MS` later, if any.
    pub fn finish(self) -> (out: (Result<(), String>, Option<String>))
        ensures
            match out.0 {
                Ok(()) => self@.error is None,
                Err(e) => self@.error == Some(e@),
            },
            opt_view(out.1) == restore_of(self@),
    {
        match self.error {
            Some(e) => (Err(e), None),
            None => (Ok(()), self.previous),
        }
    }
}

// ------------------------------------------------------------------ laws

/// Empty text pastes nothing: the job is finished from the start, without
/// touching the clipboard, and succeeds.
pub proof fn lemma_empty_text_pastes_nothing(text: Seq<char>)
    requires
        text.len() == 0,
    ensures
        paste_start(text).stage == PasteStage::Done,
        paste_start(text).error is None,
        restore_of(paste_start(text)) is None,
{
}

/// No stuck modifier: once the modifier went down, the paste key is clicked
/// and the modifier released before the job finishes, whatever the click
/// did.
pub proof fn lemma_pressed_modifier_is_released(v: PasteView, click: Option<Seq<char>>)
    requires
        v.stage == PasteStage::PressModifier,
    ensures
        advance(v, None).stage == PasteStage::ClickPaste,
        advance(advance(v, None), click).stage == PasteStage::ReleaseModifier,
{
}

/// A failed click is the error reported, whatever the release does; a
/// failed release is reported only after a good click.
pub proof fn lemma_click_error_wins(v: PasteView, click: Seq<char>, release: Option<Seq<char>>)
    requires
        v.stage == PasteStage::ClickPaste,
        v.error is None,
    ensures
        advance(advance(v, Some(click)), release).error == Some("paste key failed: "@ + click),
        advance(advance(v, None), release).error == prefixed("modifier release failed: "@, release),
        advance(advance(v, None), release).stage == PasteStage::Done,
{
}

/// After a paste that succeeded, exactly what the clipboard held before is
/// put back, whatever it was; after a failed one, nothing is.
pub proof fn lemma_restore_is_previous(v: PasteView)
    ensures
        v.error is None ==> restore_of(v) == v.previous,
        v.error is Some ==> restore_of(v) is None,
{
}

/// The user's clipboard is put back only after a successful paste.
pub proof fn lemma_restore_only_after_success(v: PasteView)
    ensures
        restore_of(v) is Some ==> v.error is None && v.previous == restore_of(v),
{
}

} // verus!
