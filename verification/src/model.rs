//! Model catalog entries, status rows and model-related payloads.
//!
//! Progress ratios are carried as integers: a percentage in basis points
//! (hundredths of a percent, 0 to 10000), never as floating point.

use vstd::prelude::*;

verus! {

/// What a model can do beyond plain text.
pub struct ModelCapabilities {
    pub vision: bool,
    pub thinking: bool,
}

/// One artifact file of a model.
pub struct ModelFile {
    pub filename: String,
    pub url: String,
    pub size_bytes: u64,
}

/// The artifact files of one model: the main weights and an optional
/// vision projector.
pub struct ModelFiles {
    pub model: ModelFile,
    pub mmproj: Option<ModelFile>,
}

/// One entry of the model catalog.
pub struct ModelCatalogEntry {
    pub id: String,
    pub name: String,
    pub description: String,
    pub size_label: String,
    pub capabilities: ModelCapabilities,
    pub files: ModelFiles,
}

/// The model catalog.
pub struct ModelCatalog {
    pub version: u32,
    pub models: Vec<ModelCatalogEntry>,
}

/// One model as the model list reports it.
pub struct ModelInfo {
    pub id: String,
    pub name: String,
    pub description: String,
    pub size_label: String,
    pub capabilities: ModelCapabilities,
    pub download_status: String,
    pub download_percent_bp: Option<u32>,
    pub is_current: bool,
}

/// Emitted while a download runs.
pub struct DownloadProgressPayload {
    pub model_id: String,
    pub downloaded_bytes: u64,
    pub total_bytes: u64,
    pub percent_bp: u32,
    pub speed_bps: u64,
}

/// Emitted while a model switch runs.
pub struct ModelSwitchPayload {
    pub model_id: String,
    pub status: String,
    pub error: Option<String>,
}

/// Arguments of a model switch.
pub struct SwitchModelArgs {
    pub model_id: String,
}

/// Arguments of a model download.
pub struct DownloadModelArgs {
    pub model_id: String,
}

/// Arguments of a download cancellation.
pub struct CancelDownloadArgs {
    pub model_id: String,
}

/// Arguments of a model deletion.
pub struct DeleteModelArgs {
    pub model_id: String,
}

} // verus!
