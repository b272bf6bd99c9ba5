//! The catalogue of local Whisper models and the bookkeeping of a download.

use vstd::prelude::*;
use vstd::string::*;

use crate::text::same_str;

verus! {

/// A downloadable Whisper model.
#[derive(Clone, Copy)]
pub struct ModelInfo {
    pub name: &'static str,
    pub filename: &'static str,
    pub size_mb: u32,
}

/// The catalogue: name, file name and size in MB of each model, in order.
pub open spec fn model_table() -> Seq<(Seq<char>, Seq<char>, u32)> {
    seq![
        ("tiny.en"@, "ggml-tiny.en.bin"@, 75u32),
        ("base.en"@, "ggml-base.en.bin"@, 142u32),
        ("small.en"@, "ggml-small.en.bin"@, 466u32),
        ("medium.en"@, "ggml-medium.en.bin"@, 1457u32),
        ("tiny"@, "ggml-tiny.bin"@, 75u32),
        ("base"@, "ggml-base.bin"@, 142u32),
        ("small"@, "ggml-small.bin"@, 466u32),
        ("medium"@, "ggml-medium.bin"@, 1457u32),
    ]
}

impl ModelInfo {
    /// The model's entry as plain values.
    pub open spec fn entry(self) -> (Seq<char>, Seq<char>, u32) {
        (self.name@, self.filename@, self.size_mb)
    }
}

/// The catalogue of models.
pub fn models() -> (r: Vec<ModelInfo>)
    ensures
        r@.len() == model_table().len(),
        forall|i: int| 0 <= i < r@.len() ==> #[trigger] r@[i].entry() == model_table()[i],
{
    let mut r: Vec<ModelInfo> = Vec::new();
    r.push(ModelInfo { name: "tiny.en", filename: "ggml-tiny.en.bin", size_mb: 75 });
    r.push(ModelInfo { name: "base.en", filename: "ggml-base.en.bin", size_mb: 142 });
    r.push(ModelInfo { name: "small.en", filename: "ggml-small.en.bin", size_mb: 466 });
    r.push(ModelInfo { name: "medium.en", filename: "ggml-medium.en.bin", size_mb: 1457 });
    r.push(ModelInfo { name: "tiny", filename: "ggml-tiny.bin", size_mb: 75 });
    r.push(ModelInfo { name: "base", filename: "ggml-base.bin", size_mb: 142 });
    r.push(ModelInfo { name: "small", filename: "ggml-small.bin", size_mb: 466 });
    r.push(ModelInfo { name: "medium", filename: "ggml-medium.bin", size_mb: 1457 });
    r
}

/// The first catalogue entry named `name`, if any.
pub open spec fn find_entry(table: Seq<(Seq<char>, Seq<char>, u32)>, name: Seq<char>) -> Option<
    (Seq<char>, Seq<char>, u32),
>
    decreases table.len(),
{
    if table.len() == 0 {
        None
    } else if table[0].0 == name {
        Some(table[0])
    } else {
        find_entry(table.drop_first(), name)
    }
}

/// A lookup finds the first entry with the name asked for: what it returns
/// is an entry of the table with that name, no earlier entry has it, and it
/// finds nothing only when no entry has it.
pub proof fn lemma_find_entry_law(table: Seq<(Seq<char>, Seq<char>, u32)>, name: Seq<char>)
    ensures
        find_entry(table, name) matches Some(e) ==> exists|i: int|
            0 <= i < table.len() && #[trigger] table[i] == e && e.0 == name && forall|j: int|
                0 <= j < i ==> (#[trigger] table[j]).0 != name,
        find_entry(table, name) is None ==> forall|i: int|
            0 <= i < table.len() ==> (#[trigger] table[i]).0 != name,
    decreases table.len(),
{
    if table.len() > 0 && table[0].0 != name {
        let rest = table.drop_first();
        lemma_find_entry_law(rest, name);
        if let Some(e) = find_entry(rest, name) {
            let i = choose|i: int|
                0 <= i < rest.len() && #[trigger] rest[i] == e && e.0 == name && forall|j: int|
                    0 <= j < i ==> (#[trigger] rest[j]).0 != name;
            assert(table[i + 1] == e);
            assert forall|j: int| 0 <= j < i + 1 implies (#[trigger] table[j]).0 != name by {
                if j > 0 {
                    assert(table[j] == rest[j - 1]);
                }
            }
        } else {
            assert forall|i: int| 0 <= i < table.len() implies (#[trigger] table[i]).0 != name by {
                if i > 0 {
                    assert(table[i] == rest[i - 1]);
                }
            }
        }
    } else if table.len() > 0 {
        assert(table[0] == find_entry(table, name)->0);
    }
}

/// Looks a model up by name in the catalogue.
pub fn find_model(name: &str) -> (r: Option<ModelInfo>)
    ensures
        match r {
            Some(m) => find_entry(model_table(), name@) == Some(m.entry()),
            None => find_entry(model_table(), name@) is None,
        },
{
    let table: Vec<ModelInfo> = models();
    let n: usize = table.len();
    let mut i: usize = 0;
    assert(model_table().skip(0) =~= model_table());
    while i < n
        invariant
            n == table@.len(),
            n == model_table().len(),
            i <= n,
            forall|j: int| 0 <= j < n ==> #[trigger] table@[j].entry() == model_table()[j],
            find_entry(model_table(), name@) == find_entry(model_table().skip(i as int), name@),
        decreases n - i,
    {
        let m: ModelInfo = table[i];
        assert(model_table().skip(i as int)[0] == m.entry());
        assert(model_table().skip(i as int).drop_first() =~= model_table().skip(i + 1));
        if same_str(m.name, name) {
            return Some(m);
        }
        i = i + 1;
    }
    assert(model_table().skip(n as int).len() == 0);
    None
}

/// The model named `name`, or the error reported for an unknown name.
pub fn model_or_error(name: &str) -> (r: Result<ModelInfo, String>)
    ensures
        match r {
            Ok(m) => find_entry(model_table(), name@) == Some(m.entry()),
            Err(e) => find_entry(model_table(), name@) is None && e@ == "unknown model: "@
                + name@,
        },
{
    match find_model(name) {
        Some(m) => Ok(m),
        None => {
            let mut e: String = String::from_str("unknown model: ");
            e.append(name);
            Err(e)
        },
    }
}

/// Where a model's file is downloaded from.
pub fn download_url(model: &ModelInfo) -> (r: String)
    ensures
        r@ == "https://huggingface.co/ggerganov/whisper.cpp/resolve/main/"@ + model.filename@,
{
    let mut r: String = String::from_str(
        "https://huggingface.co/ggerganov/whisper.cpp/resolve/main/",
    );
    r.append(model.filename);
    r
}

/// The name a download is written under until it completes.
pub fn temp_file_name(model: &ModelInfo) -> (r: String)
    ensures
        r@ == model.filename@ + ".tmp"@,
{
    let mut r: String = String::from_str(model.filename);
    r.append(".tmp");
    r
}

/// Progress of a model download.
pub struct DownloadProgress {
    pub model: String,
    pub downloaded: u64,
    pub total: u64,
    pub done: bool,
}

impl DownloadProgress {
    /// A download of `total` bytes (0 when unknown) that has not started.
    pub fn start(model: String, total: u64) -> (p: DownloadProgress)
        ensures
            p.model == model,
            p.downloaded == 0,
            p.total == total,
            !p.done,
    {
        DownloadProgress { model, downloaded: 0, total, done: false }
    }

    /// Counts a received chunk of `len` bytes.
    pub fn advance(&mut self, len: usize)
        requires
            old(self).downloaded + len <= u64::MAX,
        ensures
            final(self).downloaded == old(self).downloaded + len,
            final(self).model == old(self).model,
            final(self).total == old(self).total,
            final(self).done == old(self).done,
    {
        self.downloaded = self.downloaded + len as u64;
    }

    /// Marks the download complete.
    pub fn finish(&mut self)
        ensures
            final(self).done,
            final(self).downloaded == old(self).downloaded,
            final(self).model == old(self).model,
            final(self).total == old(self).total,
    {
        self.done = true;
    }
}

} // verus!
