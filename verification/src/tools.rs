//! The built-in tool registry, the tool-call types, and the translation
//! of tool definitions into the provider's function-calling schema.

use vstd::prelude::*;

verus! {

use crate::jsoncodec::quoted;
use crate::jsoncodec::append_quoted;
use crate::settings::AppSettings;
use crate::text::{concat_str, str_eq, contains_str};

/// What kind of capability a tool provides.
#[derive(PartialEq, Eq, Structural)]
pub enum ToolCategory {
    Search,
    Web,
    FileSystem,
    System,
}

/// One tool the model may call.
pub struct ToolDefinition {
    pub id: String,
    pub name: String,
    pub description: String,
    pub icon: String,
    pub category: ToolCategory,
    pub requires_confirmation: bool,
    pub parameters: String,
}

/// One tool call to execute.
pub struct ToolCallRequest {
    pub tool_id: String,
    pub call_id: String,
    pub arguments: String,
}

/// What a tool execution produced.
pub struct ToolCallResult {
    pub call_id: String,
    pub success: bool,
    pub output: String,
    pub error: Option<String>,
}

impl ToolCallResult {
    /// A successful result carrying the tool's output.
    pub fn success(call_id: String, output: String) -> (r: Self)
        ensures
            r.call_id == call_id,
            r.success,
            r.output == output,
            r.error is None,
    {
        ToolCallResult { call_id, success: true, output, error: None }
    }

    /// A failed result carrying the error text and no output.
    pub fn error(call_id: String, error: String) -> (r: Self)
        ensures
            r.call_id == call_id,
            !r.success,
            r.output@ == Seq::<char>::empty(),
            r.error == Some(error),
    {
        ToolCallResult { call_id, success: false, output: String::new(), error: Some(error) }
    }
}

/// A tool definition together with whether the settings enable it.
pub struct ToolWithStatus {
    pub definition: ToolDefinition,
    pub enabled: bool,
}

/// The ids of the built-in tools, in registry order.
pub open spec fn builtin_ids() -> Seq<Seq<char>> {
    seq!["wikipedia"@, "web_search"@, "filesystem"@, "shell"@, "calculator"@]
}

/// Whether the built-in tool at registry position `i` requires a user
/// confirmation before running.
pub open spec fn builtin_confirmation(i: int) -> bool {
    seq![false, false, true, true, false][i]
}

/// The category of the built-in tool at registry position `i`.
pub open spec fn builtin_category(i: int) -> ToolCategory {
    seq![
        ToolCategory::Search,
        ToolCategory::Web,
        ToolCategory::FileSystem,
        ToolCategory::System,
        ToolCategory::System,
    ][i]
}

/// Whether `tools` is the built-in registry: five tools under the fixed
/// ids, categories and confirmation flags, each with a non-empty name,
/// description and parameter schema.
pub open spec fn is_builtin_registry(tools: Seq<ToolDefinition>) -> bool {
    &&& tools.len() == 5
    &&& forall|i: int|
        0 <= i < 5 ==> {
            &&& (#[trigger] tools[i]).id@ == builtin_ids()[i]
            &&& tools[i].category == builtin_category(i)
            &&& tools[i].requires_confirmation == builtin_confirmation(i)
            &&& tools[i].name@.len() > 0
            &&& tools[i].description@.len() > 0
            &&& tools[i].parameters@.len() > 0
        }
}

/// All built-in tools, in registry order.
pub fn get_all_tools() -> (r: Vec<ToolDefinition>)
    ensures
        is_builtin_registry(r@),
{
    let mut r: Vec<ToolDefinition> = Vec::new();
    r.push(ToolDefinition {
        id: "wikipedia".to_owned(),
        name: "Wikipedia".to_owned(),
        description: "Search and retrieve Wikipedia articles".to_owned(),
        icon: "book".to_owned(),
        category: ToolCategory::Search,
        requires_confirmation: false,
        parameters:
            "{\"type\":\"object\",\"properties\":{\"query\":{\"type\":\"string\",\"description\":\"The search query to find Wikipedia articles\"}},\"required\":[\"query\"]}".to_owned(),
    });
    r.push(ToolDefinition {
        id: "web_search".to_owned(),
        name: "Web Search".to_owned(),
        description: "Search the web using DuckDuckGo".to_owned(),
        icon: "globe".to_owned(),
        category: ToolCategory::Web,
        requires_confirmation: false,
        parameters:
            "{\"type\":\"object\",\"properties\":{\"query\":{\"type\":\"string\",\"description\":\"The search query\"}},\"required\":[\"query\"]}".to_owned(),
    });
    r.push(ToolDefinition {
        id: "filesystem".to_owned(),
        name: "File System".to_owned(),
        description: "Read, write, and list files on your computer".to_owned(),
        icon: "folder".to_owned(),
        category: ToolCategory::FileSystem,
        requires_confirmation: true,
        parameters:
            "{\"type\":\"object\",\"properties\":{\"operation\":{\"type\":\"string\",\"enum\":[\"read\",\"write\",\"list\"],\"description\":\"The file operation to perform\"},\"path\":{\"type\":\"string\",\"description\":\"The file or directory path\"},\"content\":{\"type\":\"string\",\"description\":\"Content to write (only for write operation)\"}},\"required\":[\"operation\",\"path\"]}".to_owned(),
    });
    r.push(ToolDefinition {
        id: "shell".to_owned(),
        name: "Shell".to_owned(),
        description: "Execute shell commands".to_owned(),
        icon: "terminal".to_owned(),
        category: ToolCategory::System,
        requires_confirmation: true,
        parameters:
            "{\"type\":\"object\",\"properties\":{\"command\":{\"type\":\"string\",\"description\":\"The shell command to execute\"}},\"required\":[\"command\"]}".to_owned(),
    });
    r.push(ToolDefinition {
        id: "calculator".to_owned(),
        name: "Calculator".to_owned(),
        description: "Evaluate mathematical expressions".to_owned(),
        icon: "calculator".to_owned(),
        category: ToolCategory::System,
        requires_confirmation: false,
        parameters:
            "{\"type\":\"object\",\"properties\":{\"expression\":{\"type\":\"string\",\"description\":\"The mathematical expression to evaluate (e.g., '2 + 2 * 3', 'sqrt(16)', 'sin(pi/2)')\"}},\"required\":[\"expression\"]}".to_owned(),
    });
    proof {
        reveal_strlit("wikipedia");
        reveal_strlit("web_search");
        reveal_strlit("filesystem");
        reveal_strlit("shell");
        reveal_strlit("calculator");
        reveal_strlit("Wikipedia");
        reveal_strlit("Web Search");
        reveal_strlit("File System");
        reveal_strlit("Shell");
        reveal_strlit("Calculator");
        reveal_strlit("Search and retrieve Wikipedia articles");
        reveal_strlit("Search the web using DuckDuckGo");
        reveal_strlit("Read, write, and list files on your computer");
        reveal_strlit("Execute shell commands");
        reveal_strlit("Evaluate mathematical expressions");
        reveal_strlit(
            "{\"type\":\"object\",\"properties\":{\"query\":{\"type\":\"string\",\"description\":\"The search query to find Wikipedia articles\"}},\"required\":[\"query\"]}",
        );
        reveal_strlit(
            "{\"type\":\"object\",\"properties\":{\"query\":{\"type\":\"string\",\"description\":\"The search query\"}},\"required\":[\"query\"]}",
        );
        reveal_strlit(
            "{\"type\":\"object\",\"properties\":{\"operation\":{\"type\":\"string\",\"enum\":[\"read\",\"write\",\"list\"],\"description\":\"The file operation to perform\"},\"path\":{\"type\":\"string\",\"description\":\"The file or directory path\"},\"content\":{\"type\":\"string\",\"description\":\"Content to write (only for write operation)\"}},\"required\":[\"operation\",\"path\"]}",
        );
        reveal_strlit(
            "{\"type\":\"object\",\"properties\":{\"command\":{\"type\":\"string\",\"description\":\"The shell command to execute\"}},\"required\":[\"command\"]}",
        );
        reveal_strlit(
            "{\"type\":\"object\",\"properties\":{\"expression\":{\"type\":\"string\",\"description\":\"The mathematical expression to evaluate (e.g., '2 + 2 * 3', 'sqrt(16)', 'sin(pi/2)')\"}},\"required\":[\"expression\"]}",
        );
    }
    r
}

/// The built-in tool carrying this id, if any.
pub fn get_tool_by_id(id: &str) -> (r: Option<ToolDefinition>)
    ensures
        r is Some <==> builtin_ids().contains(id@),
        r is Some ==> r.unwrap().id@ == id@,
{
    let mut all = get_all_tools();
    let mut i: usize = 0;
    while i < all.len()
        invariant
            is_builtin_registry(all@),
            0 <= i <= 5,
            forall|k: int| 0 <= k < i ==> (#[trigger] builtin_ids()[k]) != id@,
        decreases all@.len() - i,
    {
        if str_eq(all[i].id.as_str(), id) {
            let t = all.remove(i);
            proof {
                assert(builtin_ids()[i as int] == id@);
            }
            return Some(t);
        }
        i += 1;
    }
    proof {
        assert forall|k: int| 0 <= k < builtin_ids().len() implies builtin_ids()[k] != id@ by {}
    }
    None
}

/// The provider-schema JSON text of one tool definition.
pub open spec fn tool_openai_json(id: Seq<char>, description: Seq<char>, parameters: Seq<char>) -> Seq<char> {
    "{\"type\":\"function\",\"function\":{\"name\":"@ + quoted(id) + ",\"description\":"@ + quoted(
        description,
    ) + ",\"parameters\":"@ + parameters + "}}"@
}

/// Converts tool definitions to the provider's function-calling schema:
/// one JSON object text per tool, carrying its id as the function name,
/// its description, and its parameter schema verbatim.
pub fn tools_to_openai_format(tools: &Vec<ToolDefinition>) -> (r: Vec<String>)
    ensures
        r@.len() == tools@.len(),
        forall|i: int|
            0 <= i < tools@.len() ==> (#[trigger] r@[i])@ == tool_openai_json(
                tools@[i].id@,
                tools@[i].description@,
                tools@[i].parameters@,
            ),
{
    let mut r: Vec<String> = Vec::new();
    let mut i: usize = 0;
    while i < tools.len()
        invariant
            0 <= i <= tools@.len(),
            r@.len() == i,
            forall|k: int|
                0 <= k < i ==> (#[trigger] r@[k])@ == tool_openai_json(
                    tools@[k].id@,
                    tools@[k].description@,
                    tools@[k].parameters@,
                ),
        decreases tools@.len() - i,
    {
        let mut s = "{\"type\":\"function\",\"function\":{\"name\":".to_owned();
        append_quoted(&mut s, tools[i].id.as_str());
        s.append(",\"description\":");
        append_quoted(&mut s, tools[i].description.as_str());
        s.append(",\"parameters\":");
        s.append(tools[i].parameters.as_str());
        s.append("}}");
        assert(s@ =~= tool_openai_json(tools@[i as int].id@, tools@[i as int].description@, tools@[i as int].parameters@));
        r.push(s);
        i += 1;
    }
    r
}

/// The model of the enabled-tool id list in the settings.
pub open spec fn enabled_model(settings: AppSettings) -> Seq<Seq<char>> {
    settings.tools.enabled_tools@.map_values(|s: String| s@)
}

/// Every built-in tool, each with whether the settings enable it.
pub fn cmd_list_tools(settings: &AppSettings) -> (r: Vec<ToolWithStatus>)
    ensures
        r@.len() == 5,
        is_builtin_registry(r@.map_values(|t: ToolWithStatus| t.definition)),
        forall|i: int|
            0 <= i < 5 ==> (#[trigger] r@[i]).enabled == enabled_model(*settings).contains(
                builtin_ids()[i],
            ),
{
    let all = get_all_tools();
    let mut r: Vec<ToolWithStatus> = Vec::new();
    let mut i: usize = 0;
    let mut rest = all;
    while i < 5
        invariant
            0 <= i <= 5,
            rest@.len() == 5 - i,
            r@.len() == i,
            forall|k: int|
                0 <= k < 5 - i ==> {
                    &&& (#[trigger] rest@[k]).id@ == builtin_ids()[k + i]
                    &&& rest@[k].category == builtin_category(k + i)
                    &&& rest@[k].requires_confirmation == builtin_confirmation(k + i)
                    &&& rest@[k].name@.len() > 0
                    &&& rest@[k].description@.len() > 0
                    &&& rest@[k].parameters@.len() > 0
                },
            forall|k: int|
                0 <= k < i ==> {
                    &&& (#[trigger] r@[k]).definition.id@ == builtin_ids()[k]
                    &&& r@[k].definition.category == builtin_category(k)
                    &&& r@[k].definition.requires_confirmation == builtin_confirmation(k)
                    &&& r@[k].definition.name@.len() > 0
                    &&& r@[k].definition.description@.len() > 0
                    &&& r@[k].definition.parameters@.len() > 0
                    &&& r@[k].enabled == enabled_model(*settings).contains(builtin_ids()[k])
                },
        decreases 5 - i,
    {
        let def = rest.remove(0);
        let enabled = contains_str(&settings.tools.enabled_tools, def.id.as_str());
        r.push(ToolWithStatus { definition: def, enabled });
        i += 1;
    }
    proof {
        assert(is_builtin_registry(r@.map_values(|t: ToolWithStatus| t.definition))) by {
            let m = r@.map_values(|t: ToolWithStatus| t.definition);
            assert(m.len() == 5);
            assert forall|k: int| 0 <= k < 5 implies {
                &&& (#[trigger] m[k]).id@ == builtin_ids()[k]
                &&& m[k].category == builtin_category(k)
                &&& m[k].requires_confirmation == builtin_confirmation(k)
                &&& m[k].name@.len() > 0
                &&& m[k].description@.len() > 0
                &&& m[k].parameters@.len() > 0
            } by {
                assert(m[k] == r@[k].definition);
            }
        }
    }
    r
}

/// The built-in tools the settings enable, in registry order.
pub fn cmd_get_enabled_tools(settings: &AppSettings) -> (r: Vec<ToolDefinition>)
    ensures
        r@.map_values(|t: ToolDefinition| t.id@) == builtin_ids().filter(
            |x: Seq<char>| enabled_model(*settings).contains(x),
        ),
{
    let pred = Ghost(|x: Seq<char>| enabled_model(*settings).contains(x));
    let mut rest = get_all_tools();
    let mut r: Vec<ToolDefinition> = Vec::new();
    let mut i: usize = 0;
    proof {
        assert(builtin_ids().take(0int) =~= Seq::<Seq<char>>::empty());
        reveal(Seq::filter);
        assert(r@.map_values(|t: ToolDefinition| t.id@) =~= builtin_ids().take(0int).filter(
            pred@,
        ));
    }
    while i < 5
        invariant
            0 <= i <= 5,
            rest@.len() == 5 - i,
            pred@ == (|x: Seq<char>| enabled_model(*settings).contains(x)),
            forall|k: int| 0 <= k < 5 - i ==> (#[trigger] rest@[k]).id@ == builtin_ids()[k + i],
            r@.map_values(|t: ToolDefinition| t.id@) == builtin_ids().take(i as int).filter(pred@),
        decreases 5 - i,
    {
        let def = rest.remove(0);
        let ghost prefix = builtin_ids().take(i as int);
        proof {
            assert(builtin_ids().take(i as int + 1) =~= prefix.push(builtin_ids()[i as int]));
            lemma_filter_push(prefix, pred@, builtin_ids()[i as int]);
        }
        if contains_str(&settings.tools.enabled_tools, def.id.as_str()) {
            let ghost before = r@.map_values(|t: ToolDefinition| t.id@);
            r.push(def);
            proof {
                assert(r@.map_values(|t: ToolDefinition| t.id@) =~= before.push(
                    builtin_ids()[i as int],
                ));
            }
        }
        i += 1;
    }
    proof {
        assert(builtin_ids().take(5int) =~= builtin_ids());
    }
    r
}

/// Filtering a sequence extended by one element keeps the filtered prefix
/// and appends the element exactly when it satisfies the predicate.
proof fn lemma_filter_push<A>(s: Seq<A>, pred: spec_fn(A) -> bool, x: A)
    ensures
        s.push(x).filter(pred) == if pred(x) {
            s.filter(pred).push(x)
        } else {
            s.filter(pred)
        },
{
    reveal(Seq::filter);
    assert(s.push(x).drop_last() =~= s);
    assert(s.push(x).last() == x);
}

/// Enables or disables one tool in the settings: the enabled list gains
/// the id (once) or loses every occurrence of it; an unknown id is
/// rejected and the settings are unchanged.
pub fn cmd_toggle_tool(tool_id: &str, enabled: bool, settings: &mut AppSettings) -> (r: Result<
    (),
    String,
>)
    ensures
        r is Ok <==> builtin_ids().contains(tool_id@),
        r is Err ==> *final(settings) == *old(settings) && r->Err_0@ == "Unknown tool: "@
            + tool_id@,
        r is Ok && enabled ==> enabled_model(*final(settings)) == if enabled_model(
            *old(settings),
        ).contains(tool_id@) {
            enabled_model(*old(settings))
        } else {
            enabled_model(*old(settings)).push(tool_id@)
        },
        r is Ok && !enabled ==> enabled_model(*final(settings)) == enabled_model(
            *old(settings),
        ).filter(|x: Seq<char>| x != tool_id@),
        final(settings).version == old(settings).version,
        final(settings).appearance == old(settings).appearance,
        final(settings).defaults == old(settings).defaults,
        final(settings).behavior == old(settings).behavior,
{
    if get_tool_by_id(tool_id).is_none() {
        return Err(concat_str("Unknown tool: ", tool_id));
    }
    if enabled {
        if !contains_str(&settings.tools.enabled_tools, tool_id) {
            let ghost before = enabled_model(*settings);
            settings.tools.enabled_tools.push(tool_id.to_owned());
            proof {
                assert(enabled_model(*settings) =~= before.push(tool_id@));
            }
        }
    } else {
        let ghost before = enabled_model(*settings);
        let mut kept: Vec<String> = Vec::new();
        let ghost pred = |x: Seq<char>| x != tool_id@;
        proof {
            reveal(Seq::filter);
            assert(before.take(0int) =~= Seq::<Seq<char>>::empty());
            assert(kept@.map_values(|s: String| s@) =~= before.take(0int).filter(pred));
        }
        let n = settings.tools.enabled_tools.len();
        let mut i: usize = 0;
        while i < n
            invariant
                0 <= i <= n,
                n == settings.tools.enabled_tools@.len(),
                before == enabled_model(*settings),
                pred == (|x: Seq<char>| x != tool_id@),
                kept@.map_values(|s: String| s@) == before.take(i as int).filter(pred),
            decreases n - i,
        {
            let ghost prefix = before.take(i as int);
            proof {
                assert(before.take(i as int + 1) =~= prefix.push(before[i as int]));
                lemma_filter_push(prefix, pred, before[i as int]);
                assert(before[i as int] == settings.tools.enabled_tools@[i as int]@);
            }
            if !str_eq(settings.tools.enabled_tools[i].as_str(), tool_id) {
                let ghost kbefore = kept@.map_values(|s: String| s@);
                kept.push(settings.tools.enabled_tools[i].clone());
                proof {
                    assert(kept@.map_values(|s: String| s@) =~= kbefore.push(before[i as int]));
                }
            }
            i += 1;
        }
        proof {
            assert(before.take(n as int) =~= before);
        }
        settings.tools.enabled_tools = kept;
    }
    Ok(())
}

} // verus!
