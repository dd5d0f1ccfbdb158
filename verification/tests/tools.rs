use musedesk::json::{parse, print, Json};
use musedesk::tools::{
    all, command_output, command_report, list_report, needs_approval, plan,
    powershell, read_report, spawn_error, str_arg, to_openai_schema, truncate, write_report, wsl,
    ListOutcome, ToolPlan, WriteOutcome, OUTPUT_LIMIT, READ_LIMIT,
};

fn json(text: &str) -> Json {
    parse(text).unwrap()
}

#[test]
fn destructive_tools_require_approval() {
    assert!(!needs_approval("read_file"));
    assert!(!needs_approval("list_dir"));
    assert!(needs_approval("write_file"));
    assert!(needs_approval("shell"));
    assert!(needs_approval("wsl"));
    // Unknown tools fail closed: gated by default.
    assert!(needs_approval("rm_rf_everything"));
}

#[test]
fn the_tools_are_offered_in_order() {
    let names: Vec<&str> = all().iter().map(|t| t.name).collect();
    assert_eq!(names, ["read_file", "write_file", "list_dir", "shell", "wsl"]);
    for t in all() {
        assert_eq!(t.needs_approval, needs_approval(t.name));
    }
}

#[test]
fn the_schema_declares_each_tool() {
    let schema = to_openai_schema();
    assert_eq!(schema.len(), 5);
    assert_eq!(
        print(&schema[1]),
        r#"{"function":{"description":"Write (create or overwrite) a text file.","name":"write_file","parameters":{"properties":{"content":{"type":"string"},"path":{"type":"string"}},"required":["path","content"],"type":"object"}},"type":"function"}"#
    );
    assert_eq!(
        print(&schema[4]),
        r#"{"function":{"description":"Run a command inside WSL2 Ubuntu via wsl.exe interop. Every call is a FRESH login shell: re-cd to the working directory and re-establish all context in every call. Prefer `conda run -n <env>` over activation. Do not use `bash -ic`.","name":"wsl","parameters":{"properties":{"command":{"description":"bash -lc command to run inside Ubuntu","type":"string"}},"required":["command"],"type":"object"}},"type":"function"}"#
    );
}

#[test]
fn a_call_is_planned_by_its_name_and_arguments() {
    let args = json(r#"{"path":"p","content":"c","command":"x"}"#);
    assert!(matches!(plan("read_file", &args), Ok(ToolPlan::ReadFile { path }) if path == "p"));
    assert!(matches!(
        plan("write_file", &args),
        Ok(ToolPlan::WriteFile { path, content }) if path == "p" && content == "c"
    ));
    assert!(matches!(plan("list_dir", &args), Ok(ToolPlan::ListDir { path }) if path == "p"));
    assert!(matches!(plan("shell", &args), Ok(ToolPlan::Shell { command }) if command == "x"));
    assert!(matches!(plan("wsl", &args), Ok(ToolPlan::Wsl { command }) if command == "x"));
    assert_eq!(plan("rm", &args).unwrap_err(), "unknown tool: rm");
    assert_eq!(plan("write_file", &json("{}")).unwrap_err(), "missing string arg: path");
    assert_eq!(
        plan("write_file", &json(r#"{"path":"p"}"#)).unwrap_err(),
        "missing string arg: content"
    );
    assert_eq!(plan("wsl", &Json::Null).unwrap_err(), "missing string arg: command");
}

#[test]
fn a_string_argument_must_be_a_string() {
    assert_eq!(str_arg(&json(r#"{"k":"v"}"#), "k"), Ok("v".to_string()));
    assert_eq!(str_arg(&json(r#"{"k":1}"#), "k"), Err("missing string arg: k".to_string()));
}

#[test]
fn a_long_text_is_cut_and_its_length_noted() {
    assert_eq!(truncate("abc", 3), "abc");
    assert_eq!(truncate("abcd", 3), "abc…[truncated, 4 bytes total]");
    assert_eq!(truncate("éa", 2), "é…[truncated, 3 bytes total]");
    assert_eq!(truncate("a", 0), "…[truncated, 1 bytes total]");
    // A cut within a character leaves it out.
    assert_eq!(truncate("éa", 1), "…[truncated, 3 bytes total]");
    assert_eq!(truncate("a🙂b", 4), "a…[truncated, 6 bytes total]");
    assert_eq!(truncate("a🙂b", 5), "a🙂…[truncated, 6 bytes total]");
    assert_eq!(truncate("é", 2), "é");
    assert_eq!(truncate("", 0), "");
}

#[test]
fn commands_are_handed_over_as_they_are() {
    let p = powershell("echo 'a b'");
    assert_eq!(p.program, "powershell");
    assert_eq!(p.args, ["-NoProfile", "-NonInteractive", "-Command", "echo 'a b'"]);
    let w = wsl("echo \"$X\"");
    assert_eq!(w.program, "wsl.exe");
    assert_eq!(w.args, ["-d", "Ubuntu", "-e", "bash", "-lc", "echo \"$X\""]);
    assert_eq!(spawn_error(w.program, "gone"), "failed to spawn wsl.exe: gone");
}

#[test]
fn the_output_of_a_command_is_put_together() {
    assert_eq!(command_report("out", "", true, "s"), "out");
    assert_eq!(
        command_report("out", "err", false, "exit code: 2"),
        "out\n[stderr]\nerr\n[exit code: exit code: 2]"
    );
    assert_eq!(
        command_output(b"o\xff", b"\xc3\xa9", true, "s"),
        "o\u{fffd}\n[stderr]\né"
    );
    let long = "x".repeat(OUTPUT_LIMIT + 1);
    assert_eq!(
        command_output(long.as_bytes(), b"", true, "s"),
        format!("{}…[truncated, 12001 bytes total]", "x".repeat(12000))
    );
    let split = format!("{}é", "x".repeat(OUTPUT_LIMIT - 1));
    assert_eq!(
        command_output(split.as_bytes(), b"", true, "s"),
        format!("{}…[truncated, 12001 bytes total]", "x".repeat(11999))
    );
}

#[test]
fn a_file_that_was_read_is_reported() {
    assert_eq!(read_report("p", Ok("text".to_string())), Ok("text".to_string()));
    assert_eq!(
        read_report("p", Err("gone".to_string())),
        Err("read p: gone".to_string())
    );
    assert_eq!(
        read_report("p", Ok("x".repeat(READ_LIMIT + 5))).unwrap(),
        format!("{}…[truncated, 20005 bytes total]", "x".repeat(20000))
    );
    let split = format!("{}é…", "x".repeat(READ_LIMIT - 1));
    assert_eq!(
        read_report("p", Ok(split)).unwrap(),
        format!("{}…[truncated, 20004 bytes total]", "x".repeat(19999))
    );
}

#[test]
fn a_file_that_was_written_is_reported() {
    assert_eq!(write_report("p", WriteOutcome::Written), Ok("wrote p".to_string()));
    assert_eq!(
        write_report("p", WriteOutcome::NoDirectory("e".to_string())),
        Err("mkdir for p: e".to_string())
    );
    assert_eq!(
        write_report("p", WriteOutcome::NotWritten("e".to_string())),
        Err("write p: e".to_string())
    );
}

#[test]
fn a_listing_is_in_one_order() {
    let names = |v: &[&str]| ListOutcome::Listed(v.iter().map(|s| s.to_string()).collect());
    let expected = Ok("B\na\na\nab\né".to_string());
    assert_eq!(list_report("p", names(&["é", "a", "B", "ab", "a"])), expected);
    assert_eq!(list_report("p", names(&["a", "ab", "a", "é", "B"])), expected);
    assert_eq!(list_report("p", names(&[])), Ok(String::new()));
    assert_eq!(
        list_report("p", ListOutcome::NotOpened("e".to_string())),
        Err("list p: e".to_string())
    );
    assert_eq!(
        list_report("p", ListOutcome::NotRead("e".to_string())),
        Err("e".to_string())
    );
}

#[test]
fn offered_tools_can_be_called() {
    for t in all() {
        let mut args = Vec::new();
        let required = t.parameters.get("required").unwrap();
        let mut i = 0;
        while let Some(key) = required.at(i) {
            args.push((key.as_str().unwrap().to_string(), Json::text("v")));
            i += 1;
        }
        let plan = plan(t.name, &Json::Object(args)).unwrap();
        // What changes something is gated, and nothing else is.
        let changes = matches!(
            plan,
            ToolPlan::WriteFile { .. } | ToolPlan::Shell { .. } | ToolPlan::Wsl { .. }
        );
        assert_eq!(changes, needs_approval(t.name));
    }
}
