use eigen_core::settings::AppSettings;
use eigen_core::tools::{
    cmd_get_enabled_tools, cmd_list_tools, cmd_toggle_tool, get_all_tools, get_tool_by_id,
    tools_to_openai_format, ToolCallResult,
};

#[test]
fn test_tools_to_openai_format() {
    let tools = get_all_tools();
    let formatted = tools_to_openai_format(&tools);

    assert!(!formatted.is_empty());

    for tool_text in &formatted {
        let tool_json: serde_json::Value = serde_json::from_str(tool_text).unwrap();
        assert_eq!(tool_json["type"], "function");
        assert!(tool_json["function"]["name"].is_string());
        assert!(tool_json["function"]["description"].is_string());
        assert!(tool_json["function"]["parameters"].is_object());
    }
}

#[test]
fn test_registry_has_five_tools() {
    let tools = get_all_tools();
    assert_eq!(tools.len(), 5);
    let ids: Vec<&str> = tools.iter().map(|t| t.id.as_str()).collect();
    assert_eq!(
        ids,
        vec!["wikipedia", "web_search", "filesystem", "shell", "calculator"]
    );
    assert!(tools[2].requires_confirmation);
    assert!(tools[3].requires_confirmation);
    assert!(!tools[4].requires_confirmation);
}

#[test]
fn test_get_tool_by_id() {
    let t = get_tool_by_id("calculator");
    assert!(t.is_some());
    assert_eq!(t.unwrap().id, "calculator");
    assert!(get_tool_by_id("no_such_tool").is_none());
}

#[test]
fn test_toggle_tool_enable_and_disable() {
    let mut settings = AppSettings::default();
    assert!(cmd_toggle_tool("calculator", true, &mut settings).is_ok());
    assert_eq!(settings.tools.enabled_tools, vec!["calculator".to_string()]);
    // enabling again does not duplicate
    assert!(cmd_toggle_tool("calculator", true, &mut settings).is_ok());
    assert_eq!(settings.tools.enabled_tools.len(), 1);
    assert!(cmd_toggle_tool("calculator", false, &mut settings).is_ok());
    assert!(settings.tools.enabled_tools.is_empty());
}

#[test]
fn test_toggle_unknown_tool_rejected() {
    let mut settings = AppSettings::default();
    let r = cmd_toggle_tool("mystery", true, &mut settings);
    assert_eq!(r.unwrap_err(), "Unknown tool: mystery");
    assert!(settings.tools.enabled_tools.is_empty());
}

#[test]
fn test_list_tools_reports_enabled_flags() {
    let mut settings = AppSettings::default();
    cmd_toggle_tool("shell", true, &mut settings).unwrap();
    let listed = cmd_list_tools(&settings);
    assert_eq!(listed.len(), 5);
    for t in &listed {
        assert_eq!(t.enabled, t.definition.id == "shell");
    }
}

#[test]
fn test_get_enabled_tools_filters() {
    let mut settings = AppSettings::default();
    cmd_toggle_tool("wikipedia", true, &mut settings).unwrap();
    cmd_toggle_tool("calculator", true, &mut settings).unwrap();
    let enabled = cmd_get_enabled_tools(&settings);
    let ids: Vec<&str> = enabled.iter().map(|t| t.id.as_str()).collect();
    assert_eq!(ids, vec!["wikipedia", "calculator"]);
}

#[test]
fn test_tool_call_result_constructors() {
    let ok = ToolCallResult::success("c1".to_string(), "out".to_string());
    assert!(ok.success);
    assert_eq!(ok.call_id, "c1");
    assert_eq!(ok.output, "out");
    assert!(ok.error.is_none());
    let bad = ToolCallResult::error("c2".to_string(), "boom".to_string());
    assert!(!bad.success);
    assert_eq!(bad.output, "");
    assert_eq!(bad.error.as_deref(), Some("boom"));
}
