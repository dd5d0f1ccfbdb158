use musedesk::json::{parse, print, Json};
use musedesk::local_cli::deltas_for_answer;
use musedesk::reply::{delta_fits, finish_call, PartialCall, Reply};

fn json(text: &str) -> Json {
    parse(text).unwrap()
}

fn delta(change: &str) -> Json {
    json(&format!("{{\"choices\":[{{\"delta\":{change}}}]}}"))
}

#[test]
fn tokens_add_up_to_the_text() {
    let mut reply = Reply::new();
    assert_eq!(reply.absorb(&delta(r#"{"content":"Hel"}"#)), Some("Hel".to_string()));
    assert_eq!(reply.absorb(&delta(r#"{"content":null}"#)), None);
    assert_eq!(reply.absorb(&delta(r#"{"content":""}"#)), Some(String::new()));
    assert_eq!(reply.absorb(&json(r#"{"choices":[]}"#)), None);
    assert_eq!(reply.absorb(&json("7")), None);
    assert_eq!(reply.absorb(&delta(r#"{"content":"lo"}"#)), Some("lo".to_string()));
    let (content, calls) = reply.finish();
    assert_eq!(content, "Hello");
    assert!(calls.is_empty());
}

#[test]
fn pieces_add_up_to_calls() {
    let mut reply = Reply::new();
    for change in [
        r#"{"tool_calls":[{"index":1,"id":"x","function":{"name":"shell","arguments":"{\"comm"}}]}"#,
        r#"{"tool_calls":[{"index":1,"function":{"name":"","arguments":"and\":\"ls\"}"}},{"id":"y"}]}"#,
        r#"{"tool_calls":[{"function":{"name":"read_file"}},{"index":3,"function":{"arguments":"{}"}}]}"#,
    ] {
        assert_eq!(reply.absorb(&delta(change)), None);
    }
    assert_eq!(reply.calls.len(), 4);
    assert_eq!(reply.calls[2].id, None);
    let (_, calls) = reply.finish();
    assert_eq!(calls.len(), 2);
    assert_eq!((calls[0].id.as_str(), calls[0].name.as_str()), ("y", "read_file"));
    assert!(matches!(calls[0].arguments, Json::Null));
    assert_eq!((calls[1].id.as_str(), calls[1].name.as_str()), ("x", "shell"));
    assert_eq!(print(&calls[1].arguments), r#"{"command":"ls"}"#);
}

#[test]
fn a_call_without_an_id_gets_a_fresh_one() {
    let mut reply = Reply::new();
    reply.absorb(&delta(
        r#"{"tool_calls":[{"function":{"name":"a"}},{"index":1,"function":{"name":"b"}}]}"#,
    ));
    let (_, calls) = reply.finish();
    let a = calls[0].id.strip_prefix("call_").unwrap();
    let b = calls[1].id.strip_prefix("call_").unwrap();
    assert_ne!(a, b);
    assert_eq!(uuid::Uuid::parse_str(a).unwrap().get_version_num(), 4);
}

#[test]
fn a_partial_call_is_completed() {
    let partial = |id: Option<&str>| PartialCall {
        id: id.map(|s| s.to_string()),
        name: "n".to_string(),
        arguments: "?".to_string(),
    };
    let c = finish_call(partial(None), Err("bad".to_string()), "fresh");
    assert_eq!(c.id, "call_fresh");
    assert!(matches!(c.arguments, Json::Null));
    let c = finish_call(partial(Some("given")), Ok(Json::Bool(true)), "fresh");
    assert_eq!(c.id, "given");
    assert!(matches!(c.arguments, Json::Bool(true)));
}

#[test]
fn places_beyond_memory_are_found_out() {
    assert!(delta_fits(&delta(r#"{"tool_calls":[{"index":5}]}"#)));
    assert!(delta_fits(&delta(r#"{"content":"x"}"#)));
    assert!(delta_fits(&json("null")));
    assert!(!delta_fits(&delta(
        r#"{"tool_calls":[{"index":0},{"index":18446744073709551615}]}"#
    )));
}

#[test]
fn local_answers_are_understood() {
    let answer = json(
        r#"{"text":"both","tool_calls":[{"name":"wsl","arguments":"{\"command\":\"id\"}"},{"name":"list_dir","arguments":"[]"}]}"#,
    );
    let mut reply = Reply::new();
    for d in deltas_for_answer(&answer).unwrap() {
        assert!(delta_fits(&d));
        reply.absorb(&d);
    }
    let (content, calls) = reply.finish();
    assert_eq!(content, "both");
    let got: Vec<String> = calls
        .iter()
        .map(|c| format!("{} {} {}", c.id, c.name, print(&c.arguments)))
        .collect();
    assert_eq!(
        got,
        ["call_local_0 wsl {\"command\":\"id\"}", "call_local_1 list_dir []"]
    );
}
