use musedesk::json::{print, Json};
use musedesk::sse::{read_event, SseDecoder};

fn texts(values: &[Json]) -> Vec<String> {
    values.iter().map(print).collect()
}

#[test]
fn events_are_read_as_they_become_complete() {
    let mut d = SseDecoder::new();
    assert!(d.feed(b"data: {\"a\":1}\n").is_empty());
    assert_eq!(texts(&d.feed(b"\ndata:2\n\ndata: 3")), ["{\"a\":1}", "2"]);
    assert_eq!(texts(&d.feed(b"\n\n")), ["3"]);
    assert!(!d.is_done());
}

#[test]
fn the_end_marker_ends_the_stream() {
    let mut d = SseDecoder::new();
    assert_eq!(texts(&d.feed(b"data: 1\ndata: [DONE]\ndata: 2\n\ndata: 3\n\n")), ["1"]);
    assert!(d.is_done());
    assert!(d.feed(b"data: 4\n\n").is_empty());
    assert!(d.is_done());
}

#[test]
fn other_lines_and_bad_payloads_are_passed_over() {
    let mut d = SseDecoder::new();
    let got = d.feed(b": ping\nevent: x\n\n  data:   true  \r\ndata: {oops\nnodata: 1\n\n");
    assert_eq!(texts(&got), ["true"]);
    // A carriage return between the newlines keeps the event open.
    assert!(d.feed(b"data: 1\r\n\r\n").is_empty());
    assert_eq!(texts(&d.feed(b"\n")), ["1"]);
}

#[test]
fn chunks_make_no_difference_to_what_is_read() {
    let text = "data: {\"k\":\"é…🙂\"}\n\n\n\ndata: 1\n\ndata: [DONE]\n\ndata: 2\n\n";
    let body = text.as_bytes();
    let expected = ["{\"k\":\"é…🙂\"}", "1"];
    let mut whole = SseDecoder::new();
    assert_eq!(texts(&whole.feed(body)), expected);
    for cut in 0..=body.len() {
        let mut d = SseDecoder::new();
        let mut got = texts(&d.feed(&body[..cut]));
        got.extend(texts(&d.feed(&body[cut..])));
        assert_eq!(got, expected);
        assert!(d.is_done());
    }
    let mut d = SseDecoder::new();
    let mut got = Vec::new();
    for byte in body {
        got.extend(texts(&d.feed(&[*byte])));
    }
    assert_eq!(got, expected);
}

#[test]
fn bytes_that_are_not_utf8_are_replaced() {
    let mut d = SseDecoder::new();
    assert_eq!(texts(&d.feed(b"data: \"\xff\"\n\n")), ["\"\u{fffd}\""]);
    // A character that is cut between two chunks is whole again.
    assert!(d.feed(b"data: \"\xc3").is_empty());
    assert_eq!(texts(&d.feed(b"\xa9\"\n\n")), ["\"é\""]);
}

#[test]
fn an_event_is_read_as_its_lines() {
    let (data, done) = read_event(" data: é \nother\ndata:\ndata: 2\n\n");
    assert_eq!(data, ["é", "", "2"]);
    assert!(!done);
    let (data, done) = read_event("data: 1\ndata:  [DONE] \ndata: 2");
    assert_eq!(data, ["1"]);
    assert!(done);
    assert_eq!(read_event(""), (vec![], false));
}

#[test]
fn a_data_line_is_read_back_as_it_was_sent() {
    let mut d = SseDecoder::new();
    assert_eq!(texts(&d.feed(b"data: \"a data: b\"\n\n")), ["\"a data: b\""]);
}
