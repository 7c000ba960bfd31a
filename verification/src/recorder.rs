//! The microphone thread's bookkeeping.
//!
//! The audio stream cannot leave the thread that created it, so a dedicated
//! thread owns it and answers commands. This is what that thread decides: a
//! second start while capturing keeps the running stream (starting twice
//! would leak the first one), and a stop with nothing running hands back an
//! empty capture at the rate whisper wants.

use vstd::prelude::*;

verus! {

/// Whisper only accepts 16 kHz mono audio.
pub const TARGET_SAMPLE_RATE: u32 = 16000;

/// What a start command needs.
#[derive(Clone, Copy, Debug, PartialEq, Eq, Structural)]
pub enum StartStep {
    /// A stream is already capturing; keep it and report success.
    AlreadyRunning,
    /// Open a stream on the input device.
    OpenStream,
}

/// The live stream `S`, if any, and the rate it captures at.
pub struct RecorderCore<S> {
    active: Option<(S, u32)>,
}

impl<S> View for RecorderCore<S> {
    type V = Option<(S, u32)>;

    closed spec fn view(&self) -> Option<(S, u32)> {
        self.active
    }
}

impl<S> RecorderCore<S> {
    /// Nothing capturing.
    pub fn new() -> (core: RecorderCore<S>)
        ensures
            core@ is None,
    {
        RecorderCore { active: None }
    }

    /// Whether a stream is capturing.
    pub fn is_capturing(&self) -> (capturing: bool)
        ensures
            capturing == self@ is Some,
    {
        self.active.is_some()
    }

    /// What a start command needs.
    pub fn start_step(&self) -> (step: StartStep)
        ensures
            step == start_step_for(self@),
    {
        if self.active.is_some() {
            StartStep::AlreadyRunning
        } else {
            StartStep::OpenStream
        }
    }

    /// A stream was opened at `sample_rate`; it is now the live one. Any
    /// stream that was live before is handed back.
    pub fn opened(&mut self, stream: S, sample_rate: u32) -> (displaced: Option<S>)
        ensures
            final(self)@ == Some((stream, sample_rate)),
            displaced == match old(self)@ {
                Some(p) => Some(p.0),
                None => None::<S>,
            },
    {
        let previous = self.active.take();
        self.active = Some((stream, sample_rate));
        match previous {
            Some(p) => Some(p.0),
            None => None,
        }
    }

    /// A stop command: hands back the live stream, to be dropped before its
    /// buffer is taken so that no sample can land in it afterwards, and the
    /// rate of the capture. With nothing live there is no stream, and the
    /// (empty) capture is at the target rate.
    pub fn stop(&mut self) -> (taken: (Option<S>, u32))
        ensures
            final(self)@ is None,
            taken == stop_result(old(self)@),
    {
        match self.active.take() {
            Some(p) => (Some(p.0), p.1),
            None => (None, TARGET_SAMPLE_RATE),
        }
    }
}

/// What a start command needs when `live` is the live stream.
pub open spec fn start_step_for<S>(live: Option<(S, u32)>) -> StartStep {
    if live is Some {
        StartStep::AlreadyRunning
    } else {
        StartStep::OpenStream
    }
}

/// What a stop command hands back when `live` is the live stream.
pub open spec fn stop_result<S>(live: Option<(S, u32)>) -> (Option<S>, u32) {
    match live {
        Some(p) => (Some(p.0), p.1),
        None => (None::<S>, TARGET_SAMPLE_RATE),
    }
}

/// Starting twice opens one stream: after a stream has been opened, another
/// start command keeps it.
pub proof fn lemma_start_opens_once<S>(stream: S, sample_rate: u32)
    ensures
        start_step_for::<S>(None) == StartStep::OpenStream,
        start_step_for(Some((stream, sample_rate))) == StartStep::AlreadyRunning,
{
}

/// A stop hands back the stream that was opened and the rate it was opened
/// at; a second stop finds nothing and reports an empty capture at the
/// target rate.
pub proof fn lemma_stop_then_stop<S>(stream: S, sample_rate: u32)
    ensures
        stop_result(Some((stream, sample_rate))) == (Some(stream), sample_rate),
        stop_result::<S>(None) == (None::<S>, TARGET_SAMPLE_RATE),
{
}

} // verus!
