use musedesk::agent::{
    show_error, Emission, Phase, Request, Step, Turn, DENIAL, LIMIT_MESSAGE, MAX_ITERS, SYSTEM_PROMPT,
};
use musedesk::json::{parse, print, Json};
use musedesk::reply::ToolCall;

fn call(id: &str, name: &str, arguments: &str) -> ToolCall {
    ToolCall {
        id: id.to_string(),
        name: name.to_string(),
        arguments: parse(arguments).unwrap(),
    }
}

fn written(e: &Emission) -> String {
    format!("{} {}", e.event, print(&e.payload))
}

fn shown(step: &Step) -> Vec<String> {
    step.emissions.iter().map(written).collect()
}

fn last(turn: &Turn) -> String {
    print(turn.messages().last().unwrap())
}

fn delta(change: &str) -> Json {
    parse(&format!("{{\"choices\":[{{\"delta\":{change}}}]}}")).unwrap()
}

#[test]
fn a_reply_without_calls_ends_the_turn() {
    let mut turn = Turn::new("hi");
    assert_eq!(turn.messages().len(), 2);
    assert_eq!(turn.messages()[0].get_str("content"), Some(SYSTEM_PROMPT));
    assert!(SYSTEM_PROMPT.contains("Use `bash -lc`, never `bash -ic`"));
    assert_eq!(print(&turn.messages()[1]), r#"{"content":"hi","role":"user"}"#);
    assert_eq!(turn.phase(), Phase::Streaming);
    let token = turn.on_delta(&delta(r#"{"content":"Hel"}"#)).unwrap();
    assert_eq!(written(&token), r#"token "Hel""#);
    let token = turn.on_delta(&delta(r#"{"content":"lo"}"#)).unwrap();
    assert_eq!(written(&token), r#"token "lo""#);
    assert!(turn.on_delta(&delta("{}")).is_none());
    let step = turn.on_stream_end();
    assert_eq!(shown(&step), ["done \"Hello\""]);
    assert!(matches!(step.request, Request::Done));
    assert_eq!(turn.phase(), Phase::Ended);
    assert_eq!(last(&turn), r#"{"content":"Hello","role":"assistant","tool_calls":[]}"#);
    assert!(turn.current().is_none());
}

#[test]
fn a_reading_call_runs_at_once_and_a_gated_one_waits() {
    let mut turn = Turn::new("go");
    let step = turn.on_calls(vec![
        call("1", "read_file", r#"{"path":"p"}"#),
        call("2", "shell", r#"{"command":"c"}"#),
    ]);
    assert_eq!(
        shown(&step),
        [r#"tool-call {"arguments":{"path":"p"},"id":"1","name":"read_file"}"#]
    );
    assert!(matches!(step.request, Request::Execute));
    assert_eq!(turn.phase(), Phase::Running);
    assert_eq!(
        last(&turn),
        r#"{"content":"","role":"assistant","tool_calls":[{"function":{"arguments":"{\"path\":\"p\"}","name":"read_file"},"id":"1","type":"function"},{"function":{"arguments":"{\"command\":\"c\"}","name":"shell"},"id":"2","type":"function"}]}"#
    );

    let step = turn.on_result(Ok("data".to_string()));
    assert_eq!(
        shown(&step),
        [
            r#"tool-result {"id":"1","result":"data"}"#,
            r#"tool-call {"arguments":{"command":"c"},"id":"2","name":"shell"}"#
        ]
    );
    assert!(matches!(step.request, Request::Approval));
    assert_eq!(turn.phase(), Phase::Deciding);
    assert_eq!(last(&turn), r#"{"content":"data","role":"tool","tool_call_id":"1"}"#);
    assert_eq!(turn.current().unwrap().id, "2");

    let (id, card) = turn.ask_approval();
    assert_eq!(uuid::Uuid::parse_str(&id).unwrap().get_version_num(), 4);
    assert_eq!(card.payload.get_str("id"), Some(id.as_str()));
    assert_eq!(
        written(&turn.show_approval("a")),
        r#"approval-requested {"arguments":{"command":"c"},"id":"a","tool":"shell"}"#
    );

    let step = turn.on_decision(Some(true));
    assert!(step.emissions.is_empty());
    assert!(matches!(step.request, Request::Execute));
    let step = turn.on_result(Err("boom".to_string()));
    assert_eq!(shown(&step), [r#"tool-result {"id":"2","result":"tool error: boom"}"#]);
    assert!(matches!(step.request, Request::Chat));
    assert_eq!(turn.phase(), Phase::Streaming);
    assert_eq!(
        last(&turn),
        r#"{"content":"tool error: boom","role":"tool","tool_call_id":"2"}"#
    );
}

#[test]
fn a_denied_call_does_not_run() {
    for verdict in [Some(false), None] {
        let mut turn = Turn::new("go");
        let step = turn.on_calls(vec![
            call("1", "write_file", "{}"),
            call("2", "list_dir", "{}"),
        ]);
        assert!(matches!(step.request, Request::Approval));
        let step = turn.on_decision(verdict);
        assert_eq!(
            shown(&step),
            [
                r#"tool-result {"id":"1","result":"denied by user"}"#,
                r#"tool-call {"arguments":{},"id":"2","name":"list_dir"}"#
            ]
        );
        assert!(matches!(step.request, Request::Execute));
        assert_eq!(turn.current().unwrap().id, "2");
        assert_eq!(turn.messages().last().unwrap().get_str("content"), Some(DENIAL));
        assert_eq!(
            DENIAL,
            "The user denied this action. Do not retry it; ask how to proceed."
        );
    }
}

#[test]
fn an_unknown_tool_waits_for_approval() {
    let mut turn = Turn::new("go");
    let step = turn.on_calls(vec![call("1", "rm_rf_everything", "null")]);
    assert!(matches!(step.request, Request::Approval));
}

#[test]
fn the_model_is_asked_a_bounded_number_of_times() {
    let mut turn = Turn::new("go");
    let mut asked = 1;
    loop {
        turn.on_delta(&delta(
            r#"{"tool_calls":[{"id":"1","function":{"name":"list_dir","arguments":"{}"}}]}"#,
        ));
        assert!(matches!(turn.on_stream_end().request, Request::Execute));
        match turn.on_result(Ok(String::new())).request {
            Request::Chat => asked += 1,
            Request::Failed(e) => {
                assert_eq!(e, LIMIT_MESSAGE);
                assert_eq!(e, "agent loop hit iteration limit — task may be too long");
                break;
            }
            other => panic!("{other:?}"),
        }
    }
    assert_eq!(asked, MAX_ITERS);
    assert_eq!(asked, 25);
    assert_eq!(turn.phase(), Phase::Ended);
    // The opening, and for each round the assistant's message and one answer.
    assert_eq!(turn.messages().len(), 2 + 25 * 2);
}

#[test]
fn every_call_is_answered_once_before_the_model_is_asked_again() {
    let mut turn = Turn::new("go");
    let mut before: Vec<String> = turn.messages().iter().map(print).collect();
    let mut step = turn.on_calls(vec![
        call("a", "list_dir", "{}"),
        call("b", "wsl", "{}"),
        call("c", "wsl", "{}"),
    ]);
    let mut decisions = vec![Some(false), Some(true)];
    loop {
        // What was said is kept.
        let now: Vec<String> = turn.messages().iter().map(print).collect();
        assert!(now.starts_with(&before));
        before = now;
        step = match step.request {
            Request::Execute => turn.on_result(Ok("ok".to_string())),
            Request::Approval => turn.on_decision(decisions.pop().unwrap()),
            _ => break,
        };
    }
    assert!(matches!(step.request, Request::Chat));
    let answers: Vec<(&str, &str)> = turn.messages()[3..]
        .iter()
        .map(|m| {
            assert_eq!(m.get_str("role"), Some("tool"));
            (m.get_str("tool_call_id").unwrap(), m.get_str("content").unwrap())
        })
        .collect();
    assert_eq!(answers, [("a", "ok"), ("b", "ok"), ("c", DENIAL)]);
}

#[test]
fn a_broken_stream_ends_the_turn() {
    let mut turn = Turn::new("go");
    turn.on_delta(&delta(r#"{"content":"half"}"#));
    let step = turn.on_stream_error("stream error: gone".to_string());
    assert!(step.emissions.is_empty());
    match step.request {
        Request::Failed(e) => {
            assert_eq!(e, "stream error: gone");
            assert_eq!(written(&show_error(&e)), r#"agent-error "stream error: gone""#);
        }
        other => panic!("{other:?}"),
    }
    assert_eq!(turn.phase(), Phase::Ended);
    assert_eq!(turn.messages().len(), 2);
}
