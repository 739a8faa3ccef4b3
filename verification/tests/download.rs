use eigen_core::download::{
    check_cancellation, complete_download, on_http_status, DownloadRegistry, DownloadTask,
};
use eigen_core::model::{ModelCapabilities, ModelCatalogEntry, ModelFile, ModelFiles};

fn entry_with_one_file(id: &str, size: u64) -> ModelCatalogEntry {
    ModelCatalogEntry {
        id: id.to_string(),
        name: id.to_string(),
        description: String::new(),
        size_label: String::new(),
        capabilities: ModelCapabilities { vision: false, thinking: false },
        files: ModelFiles {
            model: ModelFile {
                filename: "model.gguf".to_string(),
                url: "http://host/model.gguf".to_string(),
                size_bytes: size,
            },
            mmproj: None,
        },
    }
}

#[test]
fn test_cancel_before_any_bytes() {
    // cancelled after exactly zero bytes: the tracking entry is gone and
    // the caller is told to remove the model directory via the error
    let mut reg = DownloadRegistry::new();
    reg.begin("modelA").unwrap();
    assert!(reg.is_active("modelA"));
    reg.cancel("modelA");
    let r = check_cancellation(&mut reg, "modelA");
    assert_eq!(r.unwrap_err(), "Download cancelled");
    assert!(!reg.is_active("modelA"));
}

#[test]
fn test_cancel_mid_transfer() {
    // download of one 100-byte file cancelled after 50 bytes: the entry
    // is gone and the return value is the cancellation error
    let mut reg = DownloadRegistry::new();
    reg.begin("modelA").unwrap();
    let entry = entry_with_one_file("modelA", 100);
    let mut task = DownloadTask::plan(&entry);
    assert_eq!(task.total_bytes, 100);
    task.start_file();
    let _ = task.on_chunk(50, 10);
    assert_eq!(task.downloaded, 50);
    reg.cancel("modelA");
    let r = check_cancellation(&mut reg, "modelA");
    assert_eq!(r.unwrap_err(), "Download cancelled");
    assert!(!reg.is_active("modelA"));
}

#[test]
fn test_second_download_rejected() {
    let mut reg = DownloadRegistry::new();
    reg.begin("modelA").unwrap();
    let r = reg.begin("modelA");
    assert_eq!(r.unwrap_err(), "Model is already being downloaded");
    // still exactly one active entry
    assert!(reg.is_active("modelA"));
    assert_eq!(reg.entries.len(), 1);
}

#[test]
fn test_http_failure_clears_tracking() {
    let mut reg = DownloadRegistry::new();
    reg.begin("modelA").unwrap();
    assert!(on_http_status(&mut reg, "modelA", 200).is_ok());
    assert!(reg.is_active("modelA"));
    let r = on_http_status(&mut reg, "modelA", 404);
    assert_eq!(r.unwrap_err(), "HTTP error: 404");
    assert!(!reg.is_active("modelA"));
}

#[test]
fn test_completion_clears_tracking() {
    let mut reg = DownloadRegistry::new();
    reg.begin("modelA").unwrap();
    reg.begin("modelB").unwrap();
    complete_download(&mut reg, "modelA");
    assert!(!reg.is_active("modelA"));
    assert!(reg.is_active("modelB"));
}

#[test]
fn test_progress_emission_crosses_boundary() {
    let entry = entry_with_one_file("m", 1 << 20);
    let mut task = DownloadTask::plan(&entry);
    task.start_file();
    // first chunk below the boundary: no event
    assert!(task.on_chunk(1024, 5).is_none());
    // this chunk crosses the 100 KiB boundary: one event with exact fields
    let p = task.on_chunk(102400, 1000).expect("crossing emits");
    assert_eq!(p.model_id, "m");
    assert_eq!(p.downloaded_bytes, 103424);
    assert_eq!(p.total_bytes, 1 << 20);
    // 103424 / 1048576 in basis points
    assert_eq!(p.percent_bp, 103424 * 10000 / (1 << 20));
    // bytes per second over one second
    assert_eq!(p.speed_bps, 103424);
}

#[test]
fn test_progress_with_unknown_total() {
    // a zero byte total reports zero percent rather than failing
    let entry = entry_with_one_file("m", 0);
    let mut task = DownloadTask::plan(&entry);
    task.start_file();
    let p = task.on_chunk(102400, 1000).expect("crossing emits");
    assert_eq!(p.percent_bp, 0);
    assert_eq!(p.downloaded_bytes, 102400);
}

#[test]
fn test_plan_includes_projector() {
    let mut entry = entry_with_one_file("m", 60);
    entry.files.mmproj = Some(ModelFile {
        filename: "mmproj.gguf".to_string(),
        url: "http://host/mmproj.gguf".to_string(),
        size_bytes: 40,
    });
    let task = DownloadTask::plan(&entry);
    assert_eq!(task.files.len(), 2);
    assert_eq!(task.total_bytes, 100);
    assert_eq!(task.files[1].filename, "mmproj.gguf");
}

#[test]
fn test_cancel_unknown_model_is_ignored() {
    let mut reg = DownloadRegistry::new();
    reg.begin("modelA").unwrap();
    reg.cancel("other");
    assert!(check_cancellation(&mut reg, "modelA").is_ok());
    assert!(reg.is_active("modelA"));
}
