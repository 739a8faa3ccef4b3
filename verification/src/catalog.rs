//! Model catalog logic: where a model's files live, whether they are all
//! present, discovery of loose model files, and the model list.
//!
//! The shell reads directories and hands the listings in as plain values;
//! which file counts as a model, which as a vision projector, and what
//! the model list reports is decided here.

use vstd::prelude::*;

verus! {

use crate::model::{ModelCapabilities, ModelCatalog, ModelCatalogEntry, ModelInfo};
use crate::text::{
    chars_contain,
    chars_end_with,
    contains_str,
    lower_chars,
    lowered,
    spec_contains_seq,
    spec_ends_with,
    str_eq,
};

/// One directory entry, as the shell lists it.
pub struct DirEntryInfo {
    pub name: String,
    pub is_file: bool,
}

/// The directory one model's files live in.
pub open spec fn spec_model_dir(models_dir: Seq<char>, model_id: Seq<char>) -> Seq<char> {
    models_dir + "/"@ + model_id
}

/// The directory one model's files live in: the model id as a
/// subdirectory of the models directory.
pub fn get_model_dir(models_dir: &str, model_id: &str) -> (r: String)
    ensures
        r@ == spec_model_dir(models_dir@, model_id@),
{
    let mut r = models_dir.to_owned();
    r.append("/");
    r.append(model_id);
    r
}

/// Whether a directory entry is a model weights file: a file whose name
/// ends in the weights extension, compared case-insensitively.
pub open spec fn is_gguf_entry(e: DirEntryInfo) -> bool {
    e.is_file && e.name@.len() >= 6 && spec_ends_with(lowered(e.name@), ".gguf"@)
}

/// Whether a directory entry is a vision projector: a weights file whose
/// name names the projector.
pub open spec fn is_mmproj_entry(e: DirEntryInfo) -> bool {
    is_gguf_entry(e) && spec_contains_seq(lowered(e.name@), "mmproj"@)
}

/// Whether a directory entry is a main model file: a weights file that is
/// not a projector.
pub open spec fn is_main_model_entry(e: DirEntryInfo) -> bool {
    is_gguf_entry(e) && !spec_contains_seq(lowered(e.name@), "mmproj"@)
}

/// The name of the first main model file of a listing, if any.
pub open spec fn first_model_name(s: Seq<DirEntryInfo>) -> Option<Seq<char>>
    decreases s.len(),
{
    if s.len() == 0 {
        None
    } else {
        match first_model_name(s.drop_last()) {
            Some(m) => Some(m),
            None => if is_main_model_entry(s.last()) {
                Some(s.last().name@)
            } else {
                None
            },
        }
    }
}

/// The name of the last vision projector file of a listing, if any.
pub open spec fn last_mmproj_name(s: Seq<DirEntryInfo>) -> Option<Seq<char>>
    decreases s.len(),
{
    if s.len() == 0 {
        None
    } else if is_mmproj_entry(s.last()) {
        Some(s.last().name@)
    } else {
        last_mmproj_name(s.drop_last())
    }
}

fn classify_entry(e: &DirEntryInfo) -> (r: (bool, bool))
    ensures
        r.0 == is_main_model_entry(*e),
        r.1 == is_mmproj_entry(*e),
{
    if !e.is_file {
        return (false, false);
    }
    let low = lower_chars(e.name.as_str());
    if low.len() < 6 {
        return (false, false);
    }
    if !chars_end_with(&low, ".gguf") {
        return (false, false);
    }
    if chars_contain(&low, "mmproj") {
        (false, true)
    } else {
        (true, false)
    }
}

/// Scans a directory listing for model weights files: the first main
/// model file, paired with the last vision projector when one is there,
/// both as paths under the scanned directory.
pub fn scan_models_dir(models_dir: &str, entries: &Vec<DirEntryInfo>) -> (r: Option<
    (String, Option<String>),
>)
    ensures
        match first_model_name(entries@) {
            None => r is None,
            Some(m) => r matches Some(pair) && pair.0@ == models_dir@ + "/"@ + m && match
                last_mmproj_name(entries@) {
                None => pair.1 is None,
                Some(x) => pair.1 matches Some(p) && p@ == models_dir@ + "/"@ + x,
            },
        },
{
    let mut main_name: Option<String> = None;
    let mut mmproj_name: Option<String> = None;
    let mut i: usize = 0;
    proof {
        assert(entries@.subrange(0, 0int) =~= Seq::<DirEntryInfo>::empty());
    }
    while i < entries.len()
        invariant
            0 <= i <= entries@.len(),
            match first_model_name(entries@.subrange(0, i as int)) {
                None => main_name is None,
                Some(m) => main_name matches Some(s) && s@ == m,
            },
            match last_mmproj_name(entries@.subrange(0, i as int)) {
                None => mmproj_name is None,
                Some(x) => mmproj_name matches Some(s) && s@ == x,
            },
        decreases entries@.len() - i,
    {
        let ghost prefix = entries@.subrange(0, i as int);
        proof {
            assert(entries@.subrange(0, i as int + 1) =~= prefix.push(entries@[i as int]));
            assert(prefix.push(entries@[i as int]).drop_last() =~= prefix);
        }
        let (is_main, is_mm) = classify_entry(&entries[i]);
        if is_mm {
            mmproj_name = Some(entries[i].name.clone());
        } else if is_main && main_name.is_none() {
            main_name = Some(entries[i].name.clone());
        }
        i += 1;
    }
    proof {
        assert(entries@.subrange(0, entries@.len() as int) =~= entries@);
    }
    match main_name {
        None => None,
        Some(m) => {
            let model_path = get_model_dir(models_dir, m.as_str());
            let mm = match mmproj_name {
                None => None,
                Some(x) => Some(get_model_dir(models_dir, x.as_str())),
            };
            Some((model_path, mm))
        },
    }
}

/// Detects a model left in the flat layout of an earlier installation: a
/// main model file sitting directly in the models directory.
pub fn detect_legacy_model(entries: &Vec<DirEntryInfo>) -> (r: Option<String>)
    ensures
        r is Some <==> first_model_name(entries@) is Some,
        r matches Some(s) ==> s@ == "legacy"@,
{
    let mut i: usize = 0;
    proof {
        assert(entries@.subrange(0, 0int) =~= Seq::<DirEntryInfo>::empty());
    }
    while i < entries.len()
        invariant
            0 <= i <= entries@.len(),
            first_model_name(entries@.subrange(0, i as int)) is None,
        decreases entries@.len() - i,
    {
        let ghost prefix = entries@.subrange(0, i as int);
        proof {
            assert(entries@.subrange(0, i as int + 1) =~= prefix.push(entries@[i as int]));
            assert(prefix.push(entries@[i as int]).drop_last() =~= prefix);
        }
        let (is_main, _) = classify_entry(&entries[i]);
        if is_main {
            proof {
                assert(first_model_name(entries@.subrange(0, i as int + 1)) is Some);
                lemma_first_model_monotone(entries@, i as int + 1);
            }
            return Some("legacy".to_owned());
        }
        i += 1;
    }
    proof {
        assert(entries@.subrange(0, entries@.len() as int) =~= entries@);
    }
    None
}

/// Once a prefix of the listing holds a main model file, the whole
/// listing does.
proof fn lemma_first_model_monotone(s: Seq<DirEntryInfo>, k: int)
    requires
        0 <= k <= s.len(),
        first_model_name(s.subrange(0, k)) is Some,
    ensures
        first_model_name(s) is Some,
    decreases s.len() - k,
{
    if k == s.len() {
        assert(s.subrange(0, k) =~= s);
    } else {
        assert(s.subrange(0, k + 1).drop_last() =~= s.subrange(0, k));
        lemma_first_model_monotone(s, k + 1);
    }
}

/// Whether every file of this catalog entry is present: its model file,
/// and its vision projector when it names one.
pub fn is_model_downloaded(entry: &ModelCatalogEntry, present: &Vec<String>) -> (r: bool)
    ensures
        r == {
            &&& present@.map_values(|s: String| s@).contains(entry.files.model.filename@)
            &&& match entry.files.mmproj {
                Some(m) => present@.map_values(|s: String| s@).contains(m.filename@),
                None => true,
            }
        },
{
    if !contains_str(present, entry.files.model.filename.as_str()) {
        return false;
    }
    match &entry.files.mmproj {
        Some(m) => contains_str(present, m.filename.as_str()),
        None => true,
    }
}

/// The full paths of this entry's files, when every one is present in its
/// model directory: the model file's path, and the projector's when the
/// entry names one.
pub fn get_model_paths(models_dir: &str, entry: &ModelCatalogEntry, present: &Vec<String>) -> (r:
    Option<(String, Option<String>)>)
    ensures
        r is Some <==> {
            &&& present@.map_values(|s: String| s@).contains(entry.files.model.filename@)
            &&& match entry.files.mmproj {
                Some(m) => present@.map_values(|s: String| s@).contains(m.filename@),
                None => true,
            }
        },
        r matches Some(pair) ==> {
            &&& pair.0@ == spec_model_dir(models_dir@, entry.id@) + "/"@
                + entry.files.model.filename@
            &&& match entry.files.mmproj {
                Some(m) => pair.1 matches Some(p) && p@ == spec_model_dir(models_dir@, entry.id@)
                    + "/"@ + m.filename@,
                None => pair.1 is None,
            }
        },
{
    if !is_model_downloaded(entry, present) {
        return None;
    }
    let dir = get_model_dir(models_dir, entry.id.as_str());
    let mut model_path = dir.clone();
    model_path.append("/");
    model_path.append(entry.files.model.filename.as_str());
    let mmproj_path = match &entry.files.mmproj {
        Some(m) => {
            let mut p = dir.clone();
            p.append("/");
            p.append(m.filename.as_str());
            Some(p)
        },
        None => None,
    };
    Some((model_path, mmproj_path))
}

/// Rejects deleting the model that is currently serving, and the legacy
/// model, which this path does not manage; any other id may be deleted.
pub fn delete_model(current_model_id: &Option<String>, model_id: &str) -> (r: Result<(), String>)
    ensures
        (match current_model_id {
            Some(c) => c@ == model_id@,
            None => false,
        }) ==> (r matches Err(e) && e@ == "Cannot delete the currently active model"@),
        (match current_model_id {
            Some(c) => c@ != model_id@,
            None => true,
        }) && model_id@ == "legacy"@ ==> (r matches Err(e) && e@
            == "Cannot delete legacy model through this interface"@),
        r is Ok <==> (match current_model_id {
            Some(c) => c@ != model_id@,
            None => true,
        }) && model_id@ != "legacy"@,
{
    match current_model_id {
        Some(c) => {
            if str_eq(c.as_str(), model_id) {
                return Err("Cannot delete the currently active model".to_owned());
            }
        },
        None => {},
    }
    if str_eq(model_id, "legacy") {
        return Err("Cannot delete legacy model through this interface".to_owned());
    }
    Ok(())
}

/// The recorded progress of a downloading model, in basis points.
pub open spec fn spec_progress_of(p: Seq<(Seq<char>, u32)>, id: Seq<char>) -> Option<u32>
    decreases p.len(),
{
    if p.len() == 0 {
        None
    } else if p[0].0 == id {
        Some(p[0].1)
    } else {
        spec_progress_of(p.skip(1), id)
    }
}

fn progress_of(progress: &Vec<(String, u32)>, id: &str) -> (r: Option<u32>)
    ensures
        r == spec_progress_of(progress@.map_values(|p: (String, u32)| (p.0@, p.1)), id@),
{
    let ghost model = progress@.map_values(|p: (String, u32)| (p.0@, p.1));
    let mut i: usize = 0;
    proof {
        assert(model.skip(0int) =~= model);
    }
    while i < progress.len()
        invariant
            0 <= i <= progress@.len(),
            model == progress@.map_values(|p: (String, u32)| (p.0@, p.1)),
            spec_progress_of(model, id@) == spec_progress_of(model.skip(i as int), id@),
        decreases progress@.len() - i,
    {
        proof {
            assert(model.skip(i as int)[0] == model[i as int]);
            assert(model[i as int] == (progress@[i as int].0@, progress@[i as int].1));
        }
        if str_eq(progress[i].0.as_str(), id) {
            return Some(progress[i].1);
        }
        proof {
            assert(model.skip(i as int).skip(1) =~= model.skip(i as int + 1));
        }
        i += 1;
    }
    proof {
        assert(model.skip(i as int).len() == 0);
    }
    None
}

/// Whether a model list row reports this catalog entry with this status.
pub open spec fn reports_entry(
    info: ModelInfo,
    entry: ModelCatalogEntry,
    progress: Seq<(Seq<char>, u32)>,
    is_downloaded: bool,
    current: Option<Seq<char>>,
) -> bool {
    &&& info.id@ == entry.id@
    &&& info.name@ == entry.name@
    &&& info.description@ == entry.description@
    &&& info.size_label@ == entry.size_label@
    &&& info.capabilities == entry.capabilities
    &&& info.download_status@ == if spec_progress_of(progress, entry.id@) is Some {
        "downloading"@
    } else if is_downloaded {
        "downloaded"@
    } else {
        "not_downloaded"@
    }
    &&& info.download_percent_bp == spec_progress_of(progress, entry.id@)
    &&& info.is_current == (current matches Some(c) && c == entry.id@)
}

/// Whether a model list row reports a legacy model with this name and
/// projector flag.
pub open spec fn reports_legacy(
    info: ModelInfo,
    name: Seq<char>,
    has_mmproj: bool,
    current: Option<Seq<char>>,
) -> bool {
    &&& info.id@ == "legacy"@
    &&& info.name@ == name
    &&& info.description@ == "Existing model from previous installation"@
    &&& info.size_label@ == Seq::<char>::empty()
    &&& info.capabilities.vision == has_mmproj
    &&& !info.capabilities.thinking
    &&& info.download_status@ == "downloaded"@
    &&& info.download_percent_bp is None
    &&& info.is_current == (current matches Some(c) && c == "legacy"@)
}

/// One when a legacy row precedes the catalog rows, zero otherwise.
pub open spec fn legacy_offset(legacy: Option<(String, bool)>) -> int {
    if legacy is Some {
        1int
    } else {
        0int
    }
}

/// The model of the current model id.
pub open spec fn current_model(current: Option<String>) -> Option<Seq<char>> {
    match current {
        Some(c) => Some(c@),
        None => None,
    }
}

/// The model list: one row per catalog entry in order — downloading when
/// a progress entry exists, else downloaded when its files are present,
/// else not downloaded — preceded by a legacy row when a loose model was
/// detected.
pub fn list_models(
    catalog: &ModelCatalog,
    current_model_id: &Option<String>,
    progress: &Vec<(String, u32)>,
    downloaded: &Vec<bool>,
    legacy: &Option<(String, bool)>,
) -> (r: Vec<ModelInfo>)
    requires
        downloaded@.len() == catalog.models@.len(),
    ensures
        r@.len() == catalog.models@.len() + legacy_offset(*legacy),
        legacy matches Some(l) ==> reports_legacy(
            r@[0],
            l.0@,
            l.1,
            current_model(*current_model_id),
        ),
        forall|i: int|
            0 <= i < catalog.models@.len() ==> reports_entry(
                #[trigger] r@[i + legacy_offset(*legacy)],
                catalog.models@[i],
                progress@.map_values(|p: (String, u32)| (p.0@, p.1)),
                downloaded@[i],
                current_model(*current_model_id),
            ),
{
    let mut r: Vec<ModelInfo> = Vec::new();
    let ghost pm = progress@.map_values(|p: (String, u32)| (p.0@, p.1));
    let ghost cur = current_model(*current_model_id);
    let off: usize = match legacy {
        Some(l) => {
            let is_current = match current_model_id {
                Some(c) => str_eq(c.as_str(), "legacy"),
                None => false,
            };
            r.push(ModelInfo {
                id: "legacy".to_owned(),
                name: l.0.clone(),
                description: "Existing model from previous installation".to_owned(),
                size_label: String::new(),
                capabilities: ModelCapabilities { vision: l.1, thinking: false },
                download_status: "downloaded".to_owned(),
                download_percent_bp: None,
                is_current,
            });
            1
        },
        None => 0,
    };
    let mut i: usize = 0;
    while i < catalog.models.len()
        invariant
            0 <= i <= catalog.models@.len(),
            downloaded@.len() == catalog.models@.len(),
            pm == progress@.map_values(|p: (String, u32)| (p.0@, p.1)),
            cur == current_model(*current_model_id),
            off == legacy_offset(*legacy),
            r@.len() == i + off,
            legacy matches Some(l) ==> reports_legacy(r@[0], l.0@, l.1, cur),
            forall|k: int|
                0 <= k < i ==> reports_entry(
                    #[trigger] r@[k + off],
                    catalog.models@[k],
                    pm,
                    downloaded@[k],
                    cur,
                ),
        decreases catalog.models@.len() - i,
    {
        let entry = &catalog.models[i];
        let pct = progress_of(progress, entry.id.as_str());
        let status: String = if pct.is_some() {
            "downloading".to_owned()
        } else if downloaded[i] {
            "downloaded".to_owned()
        } else {
            "not_downloaded".to_owned()
        };
        let is_current = match current_model_id {
            Some(c) => str_eq(c.as_str(), entry.id.as_str()),
            None => false,
        };
        r.push(ModelInfo {
            id: entry.id.clone(),
            name: entry.name.clone(),
            description: entry.description.clone(),
            size_label: entry.size_label.clone(),
            capabilities: ModelCapabilities {
                vision: entry.capabilities.vision,
                thinking: entry.capabilities.thinking,
            },
            download_status: status,
            download_percent_bp: pct,
            is_current,
        });
        i += 1;
    }
    r
}

} // verus!
