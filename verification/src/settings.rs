//! User settings and the changes the settings window makes to them.
//!
//! They are persisted as JSON next to the models; reading and writing the
//! file, and the JSON itself, belong to the application around the library.

use vstd::prelude::*;
use crate::paths::{join, path_join};

verus! {

/// What the user has chosen.
#[derive(Clone, Debug)]
pub struct Settings {
    /// Accelerator syntax, e.g. "Ctrl+Alt+Space".
    pub shortcut: String,
    /// ISO language code, or "auto" for whisper's own detection.
    pub language: String,
    /// Input device name. `None` follows the OS default, which is only a good
    /// idea when the OS default is actually a working microphone.
    pub input_device: Option<String>,
    /// Filename inside the models directory.
    pub model_file: String,
    /// Write the resampled audio of each utterance to disk for debugging.
    pub save_debug_wav: bool,
}

/// The settings as sequences of characters.
pub struct SettingsView {
    pub shortcut: Seq<char>,
    pub language: Seq<char>,
    pub input_device: Option<Seq<char>>,
    pub model_file: Seq<char>,
    pub save_debug_wav: bool,
}

impl View for Settings {
    type V = SettingsView;

    open spec fn view(&self) -> SettingsView {
        SettingsView {
            shortcut: self.shortcut@,
            language: self.language@,
            input_device: match self.input_device {
                Some(d) => Some(d@),
                None => None,
            },
            model_file: self.model_file@,
            save_debug_wav: self.save_debug_wav,
        }
    }
}

/// The settings of a first run.
pub open spec fn default_settings() -> SettingsView {
    SettingsView {
        shortcut: "Ctrl+Alt+Space"@,
        language: "en"@,
        input_device: None,
        model_file: "ggml-base.en.bin"@,
        save_debug_wav: false,
    }
}

/// The device choice the settings window's text means: an empty string
/// follows the OS default.
pub open spec fn device_choice(device: Seq<char>) -> Option<Seq<char>> {
    if device.len() == 0 {
        None
    } else {
        Some(device)
    }
}

impl Default for Settings {
    fn default() -> (s: Self)
        ensures
            s@ == default_settings(),
    {
        Settings {
            shortcut: String::from_str("Ctrl+Alt+Space"),
            language: String::from_str("en"),
            input_device: None,
            model_file: String::from_str("ggml-base.en.bin"),
            save_debug_wav: false,
        }
    }
}

/// A copy of an optional string.
fn copy_option(s: &Option<String>) -> (c: Option<String>)
    ensures
        c == *s,
{
    match s {
        Some(x) => Some(x.clone()),
        None => None,
    }
}

impl Settings {
    /// Where the settings file lives inside `config_dir`.
    pub fn path(config_dir: &str) -> (p: String)
        ensures
            p@ == path_join(config_dir@, "settings.json"@),
    {
        join(config_dir, "settings.json")
    }

    /// The settings to run with, given what was read back from the settings
    /// file: the stored settings when the file could be read and parsed, the
    /// defaults otherwise.
    pub fn from_stored(stored: Option<Settings>) -> (s: Settings)
        ensures
            s@ == match stored {
                Some(t) => t@,
                None => default_settings(),
            },
    {
        match stored {
            Some(t) => t,
            None => Settings::default(),
        }
    }

    /// A copy of these settings.
    pub fn duplicate(&self) -> (c: Settings)
        ensures
            c@ == self@,
    {
        Settings {
            shortcut: self.shortcut.clone(),
            language: self.language.clone(),
            input_device: copy_option(&self.input_device),
            model_file: self.model_file.clone(),
            save_debug_wav: self.save_debug_wav,
        }
    }

    /// Chooses the input device; an empty name means "follow the OS
    /// default". Returns the choice now in force.
    pub fn set_input_device(&mut self, device: String) -> (chosen: Option<String>)
        ensures
            final(self)@ == (SettingsView { input_device: device_choice(device@), ..old(self)@ }),
            chosen == final(self).input_device,
    {
        let choice = if device.as_str().is_empty() {
            None
        } else {
            Some(device)
        };
        self.input_device = copy_option(&choice);
        choice
    }

    /// Sets the dictation language.
    pub fn set_language(&mut self, language: String)
        ensures
            final(self)@ == (SettingsView { language: language@, ..old(self)@ }),
    {
        self.language = language;
    }

    /// Turns saving each recording on or off.
    pub fn set_debug_wav(&mut self, enabled: bool)
        ensures
            final(self)@ == (SettingsView { save_debug_wav: enabled, ..old(self)@ }),
    {
        self.save_debug_wav = enabled;
    }

    /// Records the accelerator now bound.
    pub fn set_shortcut(&mut self, shortcut: String)
        ensures
            final(self)@ == (SettingsView { shortcut: shortcut@, ..old(self)@ }),
    {
        self.shortcut = shortcut;
    }

    /// Records the model file to load.
    pub fn set_model_file(&mut self, model_file: String)
        ensures
            final(self)@ == (SettingsView { model_file: model_file@, ..old(self)@ }),
    {
        self.model_file = model_file;
    }
}

} // verus!
