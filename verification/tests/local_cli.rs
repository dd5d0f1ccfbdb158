use musedesk::json::{parse, print, Json};
use musedesk::local_cli::{
    accept_answer, cli_args, cli_files, cli_files_for, delta_for_call, deltas_for_answer,
    finish_run, read_event, read_line, CliArg, CliFailure, CliOutput,
    OUTPUT_SCHEMA,
};

fn json(text: &str) -> Json {
    parse(text).unwrap()
}

fn call_of(delta: &Json) -> &Json {
    delta
        .get("choices")
        .and_then(|c| c.at(0))
        .and_then(|c| c.get("delta"))
        .and_then(|d| d.get("tool_calls"))
        .and_then(|c| c.at(0))
        .unwrap()
}

#[test]
fn output_schema_is_strict_and_string_argued() {
    let schema: serde_json::Value = serde_json::from_str(OUTPUT_SCHEMA).unwrap();
    assert_eq!(schema.pointer("/type").unwrap(), "object");
    assert_eq!(schema.pointer("/additionalProperties").unwrap(), false);
    // arguments must be a *string* (strict objects can't be free-form).
    assert_eq!(
        schema
            .pointer("/properties/tool_calls/items/properties/arguments/type")
            .unwrap(),
        "string"
    );
}

#[test]
fn answer_with_tool_call_maps_to_agent_shapes() {
    let answer = Json::Object(vec![
        ("text".to_string(), Json::text("listing now")),
        (
            "tool_calls".to_string(),
            Json::Array(vec![Json::Object(vec![
                ("name".to_string(), Json::text("list_dir")),
                ("arguments".to_string(), Json::text("{\"path\": \"C:\\\\x\"}")),
            ])]),
        ),
    ]);
    let deltas = deltas_for_answer(&answer).unwrap();
    assert_eq!(deltas.len(), 2);
    let content = deltas[0]
        .get("choices")
        .and_then(|c| c.at(0))
        .and_then(|c| c.get("delta"))
        .and_then(|d| d.get_str("content"));
    assert_eq!(content.unwrap(), "listing now");
    let tc = call_of(&deltas[1]);
    assert_eq!(tc.get("index").unwrap().as_u64().unwrap(), 0);
    assert_eq!(tc.get_str("id").unwrap(), "call_local_0");
    assert_eq!(tc.get("function").unwrap().get_str("name").unwrap(), "list_dir");
    // The agent reads arguments as a JSON *string*, which must parse again.
    let args = json(tc.get("function").unwrap().get_str("arguments").unwrap());
    assert_eq!(args.get_str("path").unwrap(), "C:\\x");
}

#[test]
fn answer_indexes_multiple_calls_and_skips_empty_text() {
    let answer = Json::Object(vec![
        ("text".to_string(), Json::text("")),
        (
            "tool_calls".to_string(),
            Json::Array(vec![
                Json::Object(vec![
                    ("name".to_string(), Json::text("read_file")),
                    ("arguments".to_string(), Json::text("{}")),
                ]),
                Json::Object(vec![
                    ("name".to_string(), Json::text("wsl")),
                    ("arguments".to_string(), Json::text("{\"command\": \"whoami\"}")),
                ]),
            ]),
        ),
    ]);
    let deltas = deltas_for_answer(&answer).unwrap();
    assert_eq!(deltas.len(), 2);
    let second = call_of(&deltas[1]);
    assert_eq!(second.get("index").unwrap().as_u64().unwrap(), 1);
    assert_eq!(second.get_str("id").unwrap(), "call_local_1");
}

#[test]
fn answer_rejects_bad_shapes() {
    assert!(deltas_for_answer(&json(r#"{"text": "x"}"#)).is_err());
    assert!(deltas_for_answer(&json(r#"{"text": "x", "tool_calls": "nope"}"#)).is_err());
    assert!(deltas_for_answer(&json(
        r#"{"text": "x", "tool_calls": [{"name": "", "arguments": "{}"}]}"#
    ))
    .is_err());
    assert!(deltas_for_answer(&json(
        r#"{"text": "x", "tool_calls": [{"name": "shell", "arguments": "not json"}]}"#
    ))
    .is_err());
}

#[test]
fn a_bad_answer_says_what_is_wrong_with_it() {
    let err = |text: &str| deltas_for_answer(&json(text)).unwrap_err();
    assert_eq!(
        err(r#"{"tool_calls": []}"#),
        "local CLI answer is missing string field \"text\""
    );
    assert_eq!(
        err(r#"{"text": "x", "tool_calls": {}}"#),
        "local CLI answer is missing array field \"tool_calls\""
    );
    assert_eq!(
        err(r#"{"text": "x", "tool_calls": [{"name": "a", "arguments": "1"}, {"arguments": "1"}]}"#),
        "local CLI tool call #1 is missing a name"
    );
    assert_eq!(
        err(r#"{"text": "x", "tool_calls": [{"name": "a", "arguments": {}}]}"#),
        "local CLI tool call #0 is missing arguments"
    );
    assert_eq!(
        err(r#"{"text": "x", "tool_calls": [{"name": "a", "arguments": "{"}, {}]}"#),
        "local CLI tool call #0 arguments are not a JSON string"
    );
}

#[test]
fn a_delta_for_a_call_is_written_out_in_full() {
    let call = json(r#"{"name": "wsl", "arguments": "{}"}"#);
    assert_eq!(
        print(&delta_for_call(12, &call, true).unwrap()),
        concat_delta("12")
    );
    assert_eq!(
        delta_for_call(12, &call, false).unwrap_err(),
        "local CLI tool call #12 arguments are not a JSON string"
    );
}

fn concat_delta(n: &str) -> String {
    format!(
        "{{\"choices\":[{{\"delta\":{{\"tool_calls\":[{{\"function\":{{\"arguments\":\"{{}}\",\"name\":\"wsl\"}},\"id\":\"call_local_{n}\",\"index\":{n},\"type\":\"function\"}}]}}}}]}}"
    )
}

#[test]
fn only_the_terminal_event_means_something() {
    for line in ["", "   ", "banner", "{", "[1]", r#"{"payload_type":"run.started"}"#, "null"] {
        assert!(matches!(read_line(line), Ok(None)));
    }
    let line = r#"  {"payload_type":"run.terminal.completed","payload":{"terminal":"completed","text":"{\"text\":\"hi\",\"tool_calls\":[]}"}}  "#;
    let answer = read_line(line).unwrap().unwrap();
    assert_eq!(answer.get_str("text").unwrap(), "hi");
}

#[test]
fn the_first_line_that_means_something_counts() {
    let answer = |text: &str| {
        format!("{{\"payload_type\":\"run.terminal.completed\",\"payload\":{{\"terminal\":\"completed\",\"text\":\"{text}\"}}}}")
    };
    let mut output = CliOutput::new();
    for line in ["banner", "", r#"{"payload_type":"run.started"}"#] {
        output.on_line(line);
        assert!(output.is_open());
    }
    output.on_line(&answer("1"));
    assert!(!output.is_open());
    output.on_line(&answer("2"));
    output.on_line(&answer("nope"));
    assert_eq!(output.into_answer().unwrap().unwrap().as_u64(), Some(1));

    let mut output = CliOutput::new();
    output.on_line(r#"{"payload_type":"run.terminal.completed"}"#);
    assert!(!output.is_open());
    output.on_line(&answer("1"));
    assert_eq!(
        output.into_answer().unwrap_err(),
        "local CLI run did not complete: unknown reason"
    );

    assert!(CliOutput::new().into_answer().unwrap().is_none());
}

#[test]
fn a_run_that_did_not_complete_says_why() {
    let event = |payload: &str| {
        json(&format!(
            "{{\"payload_type\":\"run.terminal.completed\",\"payload\":{payload}}}"
        ))
    };
    assert_eq!(
        read_event(&event(r#"{"terminal":"failed","reason":"quota"}"#)).unwrap_err(),
        "local CLI run did not complete: quota"
    );
    assert_eq!(
        read_event(&event("null")).unwrap_err(),
        "local CLI run did not complete: unknown reason"
    );
    assert_eq!(
        read_event(&json(r#"{"payload_type":"run.terminal.completed"}"#)).unwrap_err(),
        "local CLI run did not complete: unknown reason"
    );
    assert_eq!(
        read_event(&event(r#"{"terminal":"completed","text":1}"#)).unwrap_err(),
        "local CLI terminal event has no text"
    );
    assert_eq!(
        read_event(&event(r#"{"terminal":"completed","text":"t"}"#)).unwrap().unwrap(),
        "t"
    );
}

#[test]
fn an_answer_that_is_not_json_is_an_error() {
    let line = r#"{"payload_type":"run.terminal.completed","payload":{"terminal":"completed","text":"nope"}}"#;
    let err = read_line(line).unwrap_err();
    let why = serde_json::from_str::<serde_json::Value>("nope").unwrap_err().to_string();
    assert_eq!(err, format!("local CLI answer is not valid JSON: {why}"));
    assert_eq!(
        accept_answer(Err("why".to_string())).unwrap_err(),
        "local CLI answer is not valid JSON: why"
    );
    assert!(matches!(accept_answer(Ok(Json::Null)), Ok(Json::Null)));
}

#[test]
fn the_end_of_a_run_is_judged_by_its_exit_first() {
    let answer = json(r#"{"text":"x","tool_calls":[]}"#);
    let long: String = "é".repeat(1500) + &"z".repeat(1000);
    let err = finish_run(Some(&answer), false, "exit code: 1", &long).unwrap_err();
    assert_eq!(
        err,
        format!(
            "local CLI failed (exit code: 1): {}{}",
            "é".repeat(1000),
            "z".repeat(1000)
        )
    );
    assert_eq!(
        finish_run(None, false, "s", "short").unwrap_err(),
        "local CLI failed (s): short"
    );
    assert_eq!(
        finish_run(None, true, "s", "short").unwrap_err(),
        "local CLI exited without a terminal answer event"
    );
    assert_eq!(finish_run(Some(&answer), true, "s", "").unwrap().len(), 1);
}

#[test]
fn the_cli_is_started_with_its_own_tools_off() {
    let words: Vec<String> = cli_args()
        .iter()
        .map(|a| match a {
            CliArg::Word(w) => w.to_string(),
            CliArg::PromptFile => "P".to_string(),
            CliArg::SchemaFile => "S".to_string(),
        })
        .collect();
    assert_eq!(
        words.join(" "),
        "/C muse exec --json --prompt-file P --output-schema S --disable-shell --disable-write --disable-web-tools"
    );
}

#[test]
fn each_run_has_files_of_its_own() {
    let files = cli_files_for("t");
    assert_eq!(files.prompt, "musedesk-prompt-t.md");
    assert_eq!(files.schema, "musedesk-schema-t.json");
    let (a, b) = (cli_files(), cli_files());
    assert_ne!(a.prompt, b.prompt);
    let tag = a
        .prompt
        .strip_prefix("musedesk-prompt-")
        .and_then(|s| s.strip_suffix(".md"))
        .unwrap();
    assert_eq!(a.schema, format!("musedesk-schema-{tag}.json"));
    assert_eq!(uuid::Uuid::parse_str(tag).unwrap().to_string(), tag);
    assert_eq!(uuid::Uuid::parse_str(tag).unwrap().get_version_num(), 4);
}

#[test]
fn a_run_that_cannot_be_carried_through_says_why() {
    let e = || "e".to_string();
    for (failure, message) in [
        (CliFailure::PromptFile(e()), "local CLI: failed to write prompt file: e"),
        (CliFailure::SchemaFile(e()), "local CLI: failed to write schema file: e"),
        (CliFailure::Spawn(e()), "local CLI: failed to spawn `muse exec`: e"),
        (CliFailure::NotPiped, "local CLI: stdout was not piped"),
        (CliFailure::Output(e()), "local CLI: failed reading stdout: e"),
        (CliFailure::Exit(e()), "local CLI: failed waiting for exit: e"),
        (CliFailure::Timeout, "local CLI timed out after 5 minutes"),
    ] {
        assert_eq!(failure.message(), message);
    }
}
