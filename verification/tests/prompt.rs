use musedesk::json::{parse, Json};
use musedesk::prompt::{render_message, render_prompt, render_system, render_tool};

fn json(text: &str) -> Json {
    parse(text).unwrap()
}

fn sample_tools() -> Vec<Json> {
    vec![json(
        r#"{
            "type": "function",
            "function": {
                "name": "list_dir",
                "description": "List entries in a directory.",
                "parameters": {
                    "type": "object",
                    "properties": { "path": { "type": "string" } },
                    "required": ["path"]
                }
            }
        }"#,
    )]
}

#[test]
fn prompt_renders_system_tools_conversation_and_format() {
    let messages = vec![
        json(r#"{"role": "system", "content": "sys-prompt"}"#),
        json(r#"{"role": "user", "content": "list files"}"#),
        json(r#"{"role": "assistant", "content": "ok", "tool_calls": []}"#),
        json(r#"{"role": "tool", "tool_call_id": "call_1", "content": "a\nb"}"#),
    ];
    let prompt = render_prompt(&messages, &sample_tools());
    assert!(prompt.contains("sys-prompt"));
    assert!(prompt.contains("list_dir"));
    assert!(prompt.contains("\"path\""));
    assert!(prompt.contains("list files"));
    assert!(prompt.contains("tool result (id=call_1)"));
    assert!(prompt.contains("tool_calls"));
    assert!(prompt.contains("REASONING ENGINE ONLY"));
    assert!(prompt.contains("JSON-encoded args string"));
}

#[test]
fn the_parts_of_a_prompt_come_in_order() {
    let messages = vec![
        json(r#"{"role": "user", "content": [1, "x"]}"#),
        json(r#"{"role": "system", "content": "rules"}"#),
        json(r#"{"role": "system", "content": ""}"#),
        json(r#"{"role": "assistant", "tool_calls": [{"b": 1, "a": 2}]}"#),
        json(r#"{"role": "tool", "content": "r"}"#),
        json(r#"{"content": "nobody"}"#),
    ];
    let tools = vec![json(r#"{"name": "bare"}"#), json("3")];
    let prompt = render_prompt(&messages, &tools);
    let middle = concat_middle();
    assert!(prompt.contains(&middle));
    assert!(prompt.starts_with("You are the REASONING ENGINE ONLY. You have no working tools in this session: do not call, invoke, or use any built-in tool for any reason."));
    assert!(prompt.contains("at the end of this prompt.\n\nSYSTEM:\nrules\n\nAVAILABLE TOOLS"));
    assert!(prompt.ends_with("reading, executing, or browsing yourself) — using them makes your answer unusable.\n"));
    assert!(prompt.contains("e.g. \"{\\\"path\\\": \\\"C:\\\\temp\\\"}\".\n"));
}

fn concat_middle() -> String {
    [
        "AVAILABLE TOOLS (request them in tool_calls — see format below):\n",
        "- bare: \n  parameters JSON schema:\n  null\n",
        "- ?: \n  parameters JSON schema:\n  null\n",
        "\nCONVERSATION:\n",
        "user:\n[1,\"x\"]\n",
        "assistant:\nassistant tool_calls:\n[{\"a\":2,\"b\":1}]\n",
        "tool result (id=?):\nr\n",
        "user:\nnobody\n",
        "\nRESPONSE FORMAT — your entire response must be exactly one JSON object, and nothing else:\n",
    ]
    .concat()
}

#[test]
fn blocks_of_a_prompt_are_written_out() {
    assert_eq!(render_system(""), "");
    assert_eq!(render_system("s"), "SYSTEM:\ns\n\n");
    assert_eq!(
        render_tool("n", "d", "{}"),
        "- n: d\n  parameters JSON schema:\n  {}\n"
    );
    assert_eq!(render_message(Some("system"), "x", None, None), "");
    assert_eq!(
        render_message(Some("assistant"), "x", None, Some("[]")),
        "assistant:\nx\nassistant tool_calls:\n[]\n"
    );
    assert_eq!(render_message(Some("assistant"), "", None, None), "assistant:\n");
    assert_eq!(
        render_message(Some("tool"), "x", Some("i"), Some("[]")),
        "tool result (id=i):\nx\n"
    );
    assert_eq!(render_message(Some("user"), "x", None, None), "user:\nx\n");
    assert_eq!(render_message(None, "x", None, None), "user:\nx\n");
}
