//! The decisions around a whisper pass: how many threads, whether a buffer
//! is worth transcribing, which language to ask for, where the model lives,
//! and what text comes out of the segments.
//!
//! The model is loaded once and kept resident; loading and inference are
//! whisper.cpp's and run in the application around the library.

use vstd::prelude::*;
use crate::paths::{join, path_join};
use crate::text::{clean, cleaned};
use crate::catalog::same_text;

verus! {

/// Whisper pads to 30 s internally; anything shorter than 0.2 s of 16 kHz
/// audio is noise.
pub const MIN_SAMPLES: usize = 3200;

/// More threads than physical cores makes whisper slower, not faster.
pub const MAX_THREADS: usize = 8;

/// The thread count used when the machine's parallelism is unknown.
pub const FALLBACK_THREADS: i32 = 4;

/// The number of threads whisper gets, given the machine's available
/// parallelism (`None` when it cannot be determined).
pub open spec fn threads_for(available: Option<usize>) -> i32 {
    match available {
        Some(n) => (if n <= MAX_THREADS { n } else { MAX_THREADS }) as i32,
        None => FALLBACK_THREADS,
    }
}

/// How many threads a whisper pass uses.
pub fn thread_count(available: Option<usize>) -> (threads: i32)
    ensures
        threads == threads_for(available),
{
    match available {
        Some(n) => {
            if n <= MAX_THREADS {
                n as i32
            } else {
                MAX_THREADS as i32
            }
        },
        None => FALLBACK_THREADS,
    }
}

/// Whether a buffer of `samples` 16 kHz samples is long enough to transcribe;
/// a shorter one gives an empty transcript without a whisper pass.
pub fn worth_transcribing(samples: usize) -> (worth: bool)
    ensures
        worth == (samples >= MIN_SAMPLES),
{
    samples >= MIN_SAMPLES
}

/// The language to hand whisper: `None` for "auto", which lets whisper
/// detect it, the ISO code otherwise.
pub fn whisper_language(language: &str) -> (chosen: Option<String>)
    ensures
        match chosen {
            Some(l) => language@ != "auto"@ && l@ == language@,
            None => language@ == "auto"@,
        },
{
    if same_text(language, "auto") {
        None
    } else {
        Some(String::from_str(language))
    }
}

/// The segments' text run together.
pub open spec fn concat_all(segments: Seq<Seq<char>>) -> Seq<char>
    decreases segments.len(),
{
    if segments.len() == 0 {
        seq![]
    } else {
        concat_all(segments.drop_last()) + segments.last()
    }
}

/// The transcript of a whisper pass: the text of its segments, in order,
/// run together and cleaned.
pub fn transcript(segments: &Vec<String>) -> (text: String)
    ensures
        text@ == cleaned(concat_all(segments@.map_values(|s: String| s@))),
{
    let ghost parts = segments@.map_values(|s: String| s@);
    let mut raw = String::new();
    let mut i: usize = 0;
    while i < segments.len()
        invariant
            i <= segments.len(),
            parts == segments@.map_values(|s: String| s@),
            raw@ == concat_all(parts.take(i as int)),
        decreases segments.len() - i,
    {
        assert(parts.take(i + 1).drop_last() =~= parts.take(i as int));
        raw.append(segments[i].as_str());
        i = i + 1;
    }
    assert(parts.take(segments.len() as int) =~= parts);
    clean(raw.as_str())
}

/// Where the model file lives: inside `model_dir` when one is given (the
/// `PARROT_MODEL_DIR` override, so a shared model directory can be used
/// instead of copying multi-hundred-megabyte files around), inside the
/// `models` directory of the app's data directory otherwise.
pub fn model_path(app_data_dir: &str, model_file: &str, model_dir: Option<&str>) -> (path: String)
    ensures
        path@ == match model_dir {
            Some(d) => path_join(d@, model_file@),
            None => path_join(path_join(app_data_dir@, "models"@), model_file@),
        },
{
    match model_dir {
        Some(d) => join(d, model_file),
        None => {
            let models = join(app_data_dir, "models");
            join(models.as_str(), model_file)
        },
    }
}

} // verus!
