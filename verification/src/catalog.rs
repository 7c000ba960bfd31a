//! The whisper models the app knows how to fetch.

use vstd::prelude::*;

verus! {

/// One downloadable whisper model.
#[derive(Clone, Copy, Debug)]
pub struct ModelSpec {
    /// Short identifier, e.g. "base.en".
    pub id: &'static str,
    /// File name on the model server and in the models directory.
    pub file: &'static str,
    /// Human-readable name.
    pub label: &'static str,
    /// Approximate download size.
    pub size_mb: u32,
    /// One-line advice on when to pick this model.
    pub note: &'static str,
}

/// A model description as sequences of characters.
pub struct ModelInfo {
    pub id: Seq<char>,
    pub file: Seq<char>,
    pub label: Seq<char>,
    pub size_mb: u32,
    pub note: Seq<char>,
}

impl View for ModelSpec {
    type V = ModelInfo;

    open spec fn view(&self) -> ModelInfo {
        ModelInfo {
            id: self.id@,
            file: self.file@,
            label: self.label@,
            size_mb: self.size_mb,
            note: self.note@,
        }
    }
}

/// The catalogue, in the order the settings window lists it. English-only
/// models are meaningfully better than the multilingual ones at the same
/// size, so they come first; the multilingual `small` is there for other
/// languages.
pub open spec fn model_catalog() -> Seq<ModelInfo> {
    seq![
        ModelInfo {
            id: "tiny.en"@,
            file: "ggml-tiny.en.bin"@,
            label: "Tiny (English)"@,
            size_mb: 75,
            note: "Fastest, noticeably less accurate"@,
        },
        ModelInfo {
            id: "base.en"@,
            file: "ggml-base.en.bin"@,
            label: "Base (English)"@,
            size_mb: 142,
            note: "Good balance - the default"@,
        },
        ModelInfo {
            id: "small.en"@,
            file: "ggml-small.en.bin"@,
            label: "Small (English)"@,
            size_mb: 466,
            note: "More accurate, roughly 3x slower"@,
        },
        ModelInfo {
            id: "small"@,
            file: "ggml-small.bin"@,
            label: "Small (multilingual)"@,
            size_mb: 466,
            note: "Needed for languages other than English"@,
        },
    ]
}

/// The first entry of `models` whose file name is `file`.
pub open spec fn find_model(models: Seq<ModelInfo>, file: Seq<char>) -> Option<ModelInfo>
    decreases models.len(),
{
    if models.len() == 0 {
        None
    } else if models[0].file == file {
        Some(models[0])
    } else {
        find_model(models.drop_first(), file)
    }
}

/// The catalogue entry for `file`, if there is one.
pub open spec fn model_for(file: Seq<char>) -> Option<ModelInfo> {
    find_model(model_catalog(), file)
}

/// Every catalogue entry is found by its own file name: no two entries share
/// a file name, so a lookup can never return the wrong model.
pub proof fn lemma_lookup_finds_each_entry(i: int)
    requires
        0 <= i < model_catalog().len(),
    ensures
        model_for(model_catalog()[i].file) == Some(model_catalog()[i]),
{
    reveal_strlit("ggml-tiny.en.bin");
    reveal_strlit("ggml-base.en.bin");
    reveal_strlit("ggml-small.en.bin");
    reveal_strlit("ggml-small.bin");
    let c = model_catalog();
    assert(c[0].file[5] != c[1].file[5]);
    assert(c[0].file[5] != c[2].file[5]);
    assert(c[0].file != c[1].file);
    assert(c[0].file != c[2].file);
    assert(c[0].file != c[3].file);
    assert(c[1].file != c[2].file);
    assert(c[1].file != c[3].file);
    assert(c[2].file[11] != c[3].file[11]);
    assert(c[2].file != c[3].file);
    reveal_with_fuel(find_model, 5);
    assert(c.drop_first()[0] == c[1]);
    assert(c.drop_first().drop_first()[0] == c[2]);
    assert(c.drop_first().drop_first().drop_first()[0] == c[3]);
}

/// Whether two strings hold the same characters.
pub fn same_text(a: &str, b: &str) -> (r: bool)
    ensures
        r == (a@ == b@),
{
    let x = String::from_str(a);
    let y = String::from_str(b);
    x == y
}

/// The catalogue of downloadable models.
pub fn catalog() -> (models: Vec<ModelSpec>)
    ensures
        models@.map_values(|m: ModelSpec| m@) == model_catalog(),
{
    let models = vec![
        ModelSpec {
            id: "tiny.en",
            file: "ggml-tiny.en.bin",
            label: "Tiny (English)",
            size_mb: 75,
            note: "Fastest, noticeably less accurate",
        },
        ModelSpec {
            id: "base.en",
            file: "ggml-base.en.bin",
            label: "Base (English)",
            size_mb: 142,
            note: "Good balance - the default",
        },
        ModelSpec {
            id: "small.en",
            file: "ggml-small.en.bin",
            label: "Small (English)",
            size_mb: 466,
            note: "More accurate, roughly 3x slower",
        },
        ModelSpec {
            id: "small",
            file: "ggml-small.bin",
            label: "Small (multilingual)",
            size_mb: 466,
            note: "Needed for languages other than English",
        },
    ];
    assert(models@.map_values(|m: ModelSpec| m@) =~= model_catalog());
    models
}

/// Looks a model up by its file name.
pub fn spec_for(file: &str) -> (found: Option<ModelSpec>)
    ensures
        match found {
            Some(m) => model_for(file@) == Some(m@),
            None => model_for(file@) is None,
        },
{
    let models = catalog();
    let ghost all = models@.map_values(|m: ModelSpec| m@);
    let mut i: usize = 0;
    assert(all.skip(0) =~= all);
    while i < models.len()
        invariant
            i <= models.len(),
            all == models@.map_values(|m: ModelSpec| m@),
            all == model_catalog(),
            find_model(all, file@) == find_model(all.skip(i as int), file@),
        decreases models.len() - i,
    {
        let ghost rest = all.skip(i as int);
        assert(rest[0] == models@[i as int]@);
        if same_text(models[i].file, file) {
            return Some(models[i]);
        }
        assert(rest.drop_first() =~= all.skip(i + 1));
        i = i + 1;
    }
    assert(all.skip(i as int) =~= Seq::<ModelInfo>::empty());
    None
}


/// A row of the settings window's model list.
#[derive(Debug)]
pub struct ModelEntry {
    pub id: String,
    pub file: String,
    pub label: String,
    pub note: String,
    pub size_mb: u32,
    /// The model file is in the models directory.
    pub installed: bool,
    /// It is the model the settings select.
    pub active: bool,
}

/// `entry` describes catalogue entry `m`, installed or not as `installed`
/// says, active when its file is `active_file`.
pub open spec fn describes(entry: ModelEntry, m: ModelInfo, installed: bool, active_file: Seq<char>) -> bool {
    &&& entry.id@ == m.id
    &&& entry.file@ == m.file
    &&& entry.label@ == m.label
    &&& entry.note@ == m.note
    &&& entry.size_mb == m.size_mb
    &&& entry.installed == installed
    &&& entry.active == (m.file == active_file)
}

/// The model list for the settings window: one row per catalogue entry, in
/// catalogue order. `installed[i]` tells whether the file of entry `i` is
/// on disk (missing values count as not installed); the row whose file is
/// `active_file` is the active one.
pub fn describe_models(active_file: &str, installed: &Vec<bool>) -> (rows: Vec<ModelEntry>)
    ensures
        rows.len() == model_catalog().len(),
        forall|i: int|
            0 <= i < rows.len() ==> describes(
                #[trigger] rows[i],
                model_catalog()[i],
                i < installed.len() && installed[i],
                active_file@,
            ),
{
    let models = catalog();
    let ghost all = models@.map_values(|m: ModelSpec| m@);
    let mut rows: Vec<ModelEntry> = Vec::new();
    let mut i: usize = 0;
    while i < models.len()
        invariant
            i <= models.len(),
            all == models@.map_values(|m: ModelSpec| m@),
            all == model_catalog(),
            rows.len() == i,
            forall|j: int|
                0 <= j < i ==> describes(
                    #[trigger] rows[j],
                    model_catalog()[j],
                    j < installed.len() && installed[j],
                    active_file@,
                ),
        decreases models.len() - i,
    {
        let m = models[i];
        assert(all[i as int] == m@);
        let on_disk = i < installed.len() && installed[i];
        rows.push(ModelEntry {
            id: String::from_str(m.id),
            file: String::from_str(m.file),
            label: String::from_str(m.label),
            note: String::from_str(m.note),
            size_mb: m.size_mb,
            installed: on_disk,
            active: same_text(m.file, active_file),
        });
        i = i + 1;
    }
    rows
}

} // verus!
