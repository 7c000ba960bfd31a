//! Offline push-to-talk dictation: the decisions, text handling and
//! bookkeeping behind the recorder, the downloader and the settings.

pub mod text;
pub mod catalog;
pub mod paths;
pub mod download;
pub mod settings;
pub mod transcribe;
pub mod shortcut;
pub mod session;
pub mod recorder;
pub mod paste;
