use eigen_core::openai::{FunctionCallDelta, ToolCallDelta};
use eigen_core::toolcall::{accumulate_tool_calls, apply_tool_call_delta, AccumulatedToolCall};

fn delta(
    index: usize,
    id: Option<&str>,
    name: Option<&str>,
    arguments: Option<&str>,
) -> ToolCallDelta {
    ToolCallDelta {
        index,
        id: id.map(|s| s.to_string()),
        function: if name.is_none() && arguments.is_none() {
            None
        } else {
            Some(FunctionCallDelta {
                name: name.map(|s| s.to_string()),
                arguments: arguments.map(|s| s.to_string()),
            })
        },
    }
}

fn flat(calls: &[AccumulatedToolCall]) -> Vec<(String, String, String)> {
    calls
        .iter()
        .map(|c| (c.id.clone(), c.name.clone(), c.arguments.clone()))
        .collect()
}

#[test]
fn test_scattered_fields_merge_by_index() {
    // id, name and argument fragments arrive interleaved across two
    // indexes; the reconstruction depends only on arrival order
    let deltas = vec![
        delta(0, Some("call_a"), None, None),
        delta(1, None, Some("calculator"), None),
        delta(0, None, Some("wikipedia"), Some("{\"que")),
        delta(1, Some("call_b"), None, Some("{\"expression\":")),
        delta(0, None, None, Some("ry\":\"x\"}")),
        delta(1, None, None, Some("\"2+2\"}")),
    ];
    let calls = accumulate_tool_calls(&deltas);
    assert_eq!(
        flat(&calls),
        vec![
            (
                "call_a".to_string(),
                "wikipedia".to_string(),
                "{\"query\":\"x\"}".to_string()
            ),
            (
                "call_b".to_string(),
                "calculator".to_string(),
                "{\"expression\":\"2+2\"}".to_string()
            ),
        ]
    );
}

#[test]
fn test_split_stream_equals_whole_stream() {
    // folding the deltas one by one equals folding them all at once,
    // wherever the stream is cut
    let deltas = vec![
        delta(2, Some("c2"), Some("t2"), Some("a")),
        delta(0, Some("c0"), None, Some("b")),
        delta(2, None, None, Some("c")),
        delta(1, Some("c1"), Some("t1"), None),
    ];
    let whole = accumulate_tool_calls(&deltas);

    let mut stepped: Vec<AccumulatedToolCall> = Vec::new();
    for d in &deltas {
        apply_tool_call_delta(&mut stepped, d);
    }
    assert_eq!(flat(&whole), flat(&stepped));
}

#[test]
fn test_gaps_grow_with_empty_entries() {
    let deltas = vec![delta(3, Some("only"), Some("tool"), Some("{}"))];
    let calls = accumulate_tool_calls(&deltas);
    assert_eq!(calls.len(), 4);
    for c in &calls[..3] {
        assert_eq!(c.id, "");
        assert_eq!(c.name, "");
        assert_eq!(c.arguments, "");
    }
    assert_eq!(calls[3].id, "only");
}

#[test]
fn test_later_id_overwrites_earlier() {
    let deltas = vec![
        delta(0, Some("first"), Some("n1"), Some("x")),
        delta(0, Some("second"), Some("n2"), Some("y")),
    ];
    let calls = accumulate_tool_calls(&deltas);
    assert_eq!(calls.len(), 1);
    assert_eq!(calls[0].id, "second");
    assert_eq!(calls[0].name, "n2");
    // argument text concatenates rather than overwrites
    assert_eq!(calls[0].arguments, "xy");
}
