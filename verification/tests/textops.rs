use eigen_core::catalog::{
    delete_model, detect_legacy_model, get_model_dir, get_model_paths, is_model_downloaded,
    list_models, scan_models_dir, DirEntryInfo,
};
use eigen_core::model::{ModelCapabilities, ModelCatalog, ModelCatalogEntry, ModelFile, ModelFiles};
use eigen_core::settings::{get_default_settings, get_default_system_prompt};
use eigen_core::shelltool::{assemble_shell_output, check_command, format_size};
use eigen_core::text::u64_to_string;
use eigen_core::title::{clean_title, truncate_prompt};
use eigen_core::webtools::{strip_html_tags, url_encode, web_search_url, wikipedia_search_url};
use eigen_core::clock::unix_ms;

fn file(name: &str) -> DirEntryInfo {
    DirEntryInfo { name: name.to_string(), is_file: true }
}

fn catalog_entry(id: &str, filename: &str, mmproj: Option<&str>) -> ModelCatalogEntry {
    ModelCatalogEntry {
        id: id.to_string(),
        name: format!("name-{}", id),
        description: format!("desc-{}", id),
        size_label: "4 GB".to_string(),
        capabilities: ModelCapabilities { vision: mmproj.is_some(), thinking: false },
        files: ModelFiles {
            model: ModelFile {
                filename: filename.to_string(),
                url: format!("http://host/{}", filename),
                size_bytes: 10,
            },
            mmproj: mmproj.map(|m| ModelFile {
                filename: m.to_string(),
                url: format!("http://host/{}", m),
                size_bytes: 5,
            }),
        },
    }
}

#[test]
fn test_scan_models_dir_picks_model_and_projector() {
    let entries = vec![
        file("readme.txt"),
        file("Model-A.GGUF"),
        file("mmproj-f16.gguf"),
        DirEntryInfo { name: "subdir".to_string(), is_file: false },
    ];
    let (model, mmproj) = scan_models_dir("/models", &entries).unwrap();
    assert_eq!(model, "/models/Model-A.GGUF");
    assert_eq!(mmproj.as_deref(), Some("/models/mmproj-f16.gguf"));
}

#[test]
fn test_scan_models_dir_without_model() {
    let entries = vec![file("notes.md"), file("mmproj-only.gguf")];
    assert!(scan_models_dir("/models", &entries).is_none());
}

#[test]
fn test_detect_legacy_model() {
    assert_eq!(
        detect_legacy_model(&vec![file("m.gguf")]).as_deref(),
        Some("legacy")
    );
    assert!(detect_legacy_model(&vec![file("m.txt")]).is_none());
}

#[test]
fn test_model_paths_and_download_state() {
    let entry = catalog_entry("m1", "weights.gguf", Some("proj.gguf"));
    let both = vec!["weights.gguf".to_string(), "proj.gguf".to_string()];
    let only_model = vec!["weights.gguf".to_string()];
    assert!(is_model_downloaded(&entry, &both));
    assert!(!is_model_downloaded(&entry, &only_model));
    let (mp, pp) = get_model_paths("/models", &entry, &both).unwrap();
    assert_eq!(mp, "/models/m1/weights.gguf");
    assert_eq!(pp.as_deref(), Some("/models/m1/proj.gguf"));
    assert!(get_model_paths("/models", &entry, &only_model).is_none());
    assert_eq!(get_model_dir("/models", "m1"), "/models/m1");
}

#[test]
fn test_delete_model_policy() {
    let current = Some("m1".to_string());
    assert_eq!(
        delete_model(&current, "m1").unwrap_err(),
        "Cannot delete the currently active model"
    );
    assert_eq!(
        delete_model(&current, "legacy").unwrap_err(),
        "Cannot delete legacy model through this interface"
    );
    assert!(delete_model(&current, "m2").is_ok());
    assert!(delete_model(&None, "m2").is_ok());
}

#[test]
fn test_list_models_statuses() {
    let catalog = ModelCatalog {
        version: 1,
        models: vec![
            catalog_entry("a", "a.gguf", None),
            catalog_entry("b", "b.gguf", None),
            catalog_entry("c", "c.gguf", None),
        ],
    };
    let current = Some("a".to_string());
    let progress = vec![("b".to_string(), 4321u32)];
    let downloaded = vec![true, false, false];
    let infos = list_models(&catalog, &current, &progress, &downloaded, &None);
    assert_eq!(infos.len(), 3);
    assert_eq!(infos[0].download_status, "downloaded");
    assert!(infos[0].is_current);
    assert_eq!(infos[1].download_status, "downloading");
    assert_eq!(infos[1].download_percent_bp, Some(4321));
    assert_eq!(infos[2].download_status, "not_downloaded");
    assert!(!infos[2].is_current);
}

#[test]
fn test_list_models_legacy_row_first() {
    let catalog = ModelCatalog { version: 1, models: vec![catalog_entry("a", "a.gguf", None)] };
    let current = Some("legacy".to_string());
    let infos = list_models(
        &catalog,
        &current,
        &Vec::new(),
        &vec![false],
        &Some(("Old Model".to_string(), true)),
    );
    assert_eq!(infos.len(), 2);
    assert_eq!(infos[0].id, "legacy");
    assert_eq!(infos[0].name, "Old Model");
    assert_eq!(infos[0].description, "Existing model from previous installation");
    assert!(infos[0].capabilities.vision);
    assert_eq!(infos[0].download_status, "downloaded");
    assert!(infos[0].is_current);
}

#[test]
fn test_settings_defaults() {
    let s = get_default_settings();
    assert_eq!(s.version, 1);
    assert_eq!(s.appearance.theme, "dark");
    assert_eq!(s.appearance.accent_color, "#3b82f6");
    assert_eq!(s.appearance.font_size, "medium");
    assert!(s.defaults.model_id.is_none());
    assert_eq!(s.defaults.system_prompt, get_default_system_prompt());
    assert!(s.behavior.send_on_enter);
    assert!(s.behavior.streaming_enabled);
    assert_eq!(s.behavior.context_length, 8192);
    assert_eq!(s.behavior.max_tokens, 8192);
    assert!(s.tools.enabled_tools.is_empty());
    assert!(get_default_system_prompt().contains("Eigen"));
}

#[test]
fn test_strip_html_tags() {
    assert_eq!(
        strip_html_tags("a <span class=\"x\">b</span> c"),
        "a b c"
    );
    assert_eq!(strip_html_tags("no tags"), "no tags");
    assert_eq!(strip_html_tags("<only><tags>"), "");
}

#[test]
fn test_url_encode() {
    assert_eq!(url_encode("abc-XYZ_0.9~"), "abc-XYZ_0.9~");
    assert_eq!(url_encode("a b&c"), "a%20b%26c");
    assert_eq!(url_encode("caf\u{e9}"), "caf%C3%A9");
    assert_eq!(
        web_search_url("rust lang"),
        "https://api.duckduckgo.com/?q=rust%20lang&format=json&no_html=1&skip_disambig=1"
    );
    assert!(wikipedia_search_url("x y").contains("srsearch=x%20y"));
}

#[test]
fn test_check_command_blocks_dangerous_patterns() {
    assert_eq!(
        check_command("sudo rm -rf / --no-preserve-root").unwrap_err(),
        "Blocked potentially dangerous command pattern: rm -rf /"
    );
    assert_eq!(
        check_command("MKFS.ext4 /dev/sda1").unwrap_err(),
        "Blocked potentially dangerous command pattern: mkfs"
    );
    assert!(check_command("ls -la").is_ok());
}

#[test]
fn test_assemble_shell_output_shapes() {
    assert_eq!(assemble_shell_output("out", "", 0), "out");
    assert_eq!(
        assemble_shell_output("out", "err", 0),
        "out\n\n--- stderr ---\nerr"
    );
    assert_eq!(assemble_shell_output("", "err", 0), "err");
    assert_eq!(
        assemble_shell_output("", "", 3),
        "Command completed with exit code 3"
    );
    assert_eq!(assemble_shell_output("x", "", 2), "x\n\nExit code: 2");
    assert_eq!(assemble_shell_output("x", "", -1), "x\n\nExit code: -1");
}

#[test]
fn test_shell_output_truncated_past_limit() {
    let long = "a".repeat(100_001);
    let out = assemble_shell_output(&long, "", 0);
    assert!(out.ends_with("\n\n... (output truncated)"));
    assert_eq!(out.len(), 100_000 + "\n\n... (output truncated)".len());
}

#[test]
fn test_format_size() {
    assert_eq!(format_size(512), "512 B");
    assert_eq!(format_size(1536), "1.5 KB");
    assert_eq!(format_size(1048576), "1.0 MB");
    assert_eq!(format_size(5_905_580_032), "5.5 GB");
}

#[test]
fn test_u64_to_string() {
    assert_eq!(u64_to_string(0), "0");
    assert_eq!(u64_to_string(10), "10");
    assert_eq!(u64_to_string(18446744073709551615), "18446744073709551615");
}

#[test]
fn test_truncate_prompt() {
    assert_eq!(truncate_prompt("short"), "short");
    let long = "x".repeat(301);
    let cut = truncate_prompt(&long);
    assert_eq!(cut.len(), 303);
    assert!(cut.ends_with("..."));
}

#[test]
fn test_clean_title() {
    assert_eq!(clean_title("  \"A Good Title\"  "), "A Good Title");
    assert_eq!(clean_title("'quoted'"), "quoted");
    assert_eq!(clean_title("first line\nsecond line"), "first line");
    assert_eq!(clean_title("line\r\nmore"), "line");
    assert_eq!(clean_title(""), "New chat");
    assert_eq!(clean_title("  \"\"  "), "New chat");
    let long = "t".repeat(120);
    assert_eq!(clean_title(&long).len(), 80);
}

#[test]
fn test_unix_ms_is_nonnegative() {
    assert!(unix_ms() >= 0);
}
