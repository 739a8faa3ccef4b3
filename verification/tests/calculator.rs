use eigen_core::calculator::execute;
use eigen_core::tools::ToolCallRequest;

fn make_request(expression: &str) -> ToolCallRequest {
    ToolCallRequest {
        tool_id: "calculator".to_string(),
        call_id: "test".to_string(),
        arguments: format!("{{ \"expression\": \"{}\" }}", expression),
    }
}

#[test]
fn test_basic_arithmetic() {
    let result = execute(&make_request("2 + 2"));
    assert!(result.success);
    assert!(result.output.contains("4"));
}

#[test]
fn test_multiplication() {
    let result = execute(&make_request("3 * 4"));
    assert!(result.success);
    assert!(result.output.contains("12"));
}

#[test]
fn test_division() {
    let result = execute(&make_request("10 / 2"));
    assert!(result.success);
    assert!(result.output.contains("5"));
}

#[test]
fn test_sqrt() {
    let result = execute(&make_request("sqrt(16)"));
    assert!(result.success);
    assert!(result.output.contains("4"));
}

#[test]
fn test_complex_expression() {
    let result = execute(&make_request("(2 + 3) * 4 - 1"));
    assert!(result.success);
    assert!(result.output.contains("19"));
}

#[test]
fn test_invalid_expression() {
    // the evaluator reads `2 + + 2` as `2 + (+2)`, so a truly malformed
    // expression stands in: a binary operator with a missing operand
    let result = execute(&make_request("2 + * 2"));
    assert!(!result.success);
    assert!(result.error.is_some());
}

#[test]
fn test_missing_expression_parameter() {
    let request = ToolCallRequest {
        tool_id: "calculator".to_string(),
        call_id: "c1".to_string(),
        arguments: "{\"other\":\"1\"}".to_string(),
    };
    let result = execute(&request);
    assert!(!result.success);
    assert_eq!(
        result.error.as_deref(),
        Some("Missing required parameter: expression")
    );
}

#[test]
fn test_output_format_names_expression() {
    let result = execute(&make_request("2 + 2"));
    assert!(result.success);
    assert_eq!(result.output, "2 + 2 = 4");
    assert!(result.error.is_none());
}

#[test]
fn test_unicode_operators_normalized() {
    let result = execute(&make_request("3 \u{d7} 4"));
    assert!(result.success);
    assert!(result.output.contains("12"));
}
