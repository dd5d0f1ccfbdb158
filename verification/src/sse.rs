//! The event stream of a chat answer: blank lines part it into events, the
//! `data:` lines of an event carry JSON, and `[DONE]` ends it.

use vstd::prelude::*;

use crate::json::{array_view, json_from_str, parse, Json, JsonView};
use crate::text::{
    after_prefix, chars_of, option_string, same, strip_prefix, text_of, texts, trim, trimmed,
};
use crate::utf8::{decode, decoded, encoded};

verus! {

/// What is read from a stretch of the stream: the payloads of its data lines up
/// to the end marker, and whether the marker was met.
pub struct Payloads {
    pub data: Seq<Seq<char>>,
    pub done: bool,
}

/// The payload of a line: what follows `data:`, without white space around it.
pub open spec fn line_payload(line: Seq<char>) -> Option<Seq<char>> {
    match after_prefix(trimmed(line), "data:"@) {
        Some(rest) => Some(trimmed(rest)),
        None => None,
    }
}

/// The place of the first newline in `s`, or its length where there is none.
pub open spec fn line_end(s: Seq<char>) -> int
    decreases s.len(),
{
    if s.len() == 0 || s[0] == '\n' {
        0
    } else {
        1 + line_end(s.drop_first())
    }
}

/// What follows the first line of `s`.
pub open spec fn after_line(s: Seq<char>) -> Seq<char> {
    if line_end(s) < s.len() {
        s.skip(line_end(s) + 1)
    } else {
        Seq::empty()
    }
}

/// Nothing, with the end marker met or not.
pub open spec fn no_payloads(done: bool) -> Payloads {
    Payloads { data: Seq::empty(), done }
}

/// `first`, and after it what `rest` holds.
pub open spec fn then_payloads(first: Seq<Seq<char>>, rest: Payloads) -> Payloads {
    Payloads { data: first + rest.data, done: rest.done }
}

/// The end of a line lies within the text.
proof fn lemma_line_end(s: Seq<char>)
    ensures
        0 <= line_end(s) <= s.len(),
        line_end(s) < s.len() ==> s[line_end(s)] == '\n',
        forall|i: int| 0 <= i < line_end(s) ==> s[i] != '\n',
    decreases s.len(),
{
    if s.len() > 0 && s[0] != '\n' {
        lemma_line_end(s.drop_first());
        assert forall|i: int| 0 <= i < line_end(s) implies s[i] != '\n' by {
            if i > 0 {
                assert(s[i] == s.drop_first()[i - 1]);
            }
        }
    }
}

/// What the lines of one event hold.
pub open spec fn event_payloads(event: Seq<char>) -> Payloads
    decreases event.len(),
    via event_payloads_decreases
{
    if event.len() == 0 {
        no_payloads(false)
    } else {
        match line_payload(event.take(line_end(event))) {
            None => event_payloads(after_line(event)),
            Some(p) => if p == "[DONE]"@ {
                no_payloads(true)
            } else {
                then_payloads(seq![p], event_payloads(after_line(event)))
            },
        }
    }
}

#[via_fn]
proof fn event_payloads_decreases(event: Seq<char>) {
    lemma_line_end(event);
}

/// Whether a blank line begins at `i`: two newlines in a row. A newline is one
/// byte, which stands in no other character.
pub open spec fn break_at(s: Seq<u8>, i: int) -> bool {
    0 <= i && i + 1 < s.len() && s[i] == 0x0a && s[i + 1] == 0x0a
}

/// The place of the first blank line in `s`, where there is one.
pub open spec fn first_break(s: Seq<u8>) -> Option<int>
    decreases s.len(),
{
    if s.len() < 2 {
        None
    } else if break_at(s, 0) {
        Some(0)
    } else {
        match first_break(s.drop_first()) {
            Some(i) => Some(i + 1),
            None => None,
        }
    }
}

/// The first blank line is one, and none comes before it.
proof fn lemma_first_break(s: Seq<u8>)
    ensures
        first_break(s) matches Some(i) ==> break_at(s, i) && forall|j: int|
            0 <= j < i ==> !break_at(s, j),
        first_break(s) is None ==> forall|j: int| !break_at(s, j),
    decreases s.len(),
{
    if s.len() >= 2 && !break_at(s, 0) {
        let t = s.drop_first();
        lemma_first_break(t);
        assert forall|j: int| 0 < j implies break_at(s, j) == break_at(t, j - 1) by {}
        if first_break(s) is None {
            assert forall|j: int| !break_at(s, j) by {
                if j > 0 {
                    assert(!break_at(t, j - 1));
                }
            }
        } else {
            let i = first_break(s)->0;
            assert forall|j: int| 0 <= j < i implies !break_at(s, j) by {
                if j > 0 {
                    assert(!break_at(t, j - 1));
                }
            }
        }
    }
}

/// What some bytes of the stream yield and what of them is left: the payloads of
/// the complete events up to the end marker, and the bytes after them.
pub struct Drained {
    pub payloads: Payloads,
    pub rest: Seq<u8>,
}

/// What `s` yields, where events end in blank lines. Nothing is left once the
/// end marker has been met.
pub open spec fn drain(s: Seq<u8>) -> Drained
    decreases s.len(),
    via drain_decreases
{
    match first_break(s) {
        None => Drained { payloads: no_payloads(false), rest: s },
        Some(i) => {
            let event = event_payloads(decoded(s.take(i + 2)));
            if event.done {
                Drained { payloads: event, rest: Seq::empty() }
            } else {
                let more = drain(s.skip(i + 2));
                Drained { payloads: then_payloads(event.data, more.payloads), rest: more.rest }
            }
        },
    }
}

#[via_fn]
proof fn drain_decreases(s: Seq<u8>) {
    lemma_first_break(s);
}

/// The JSON values among some payloads; a payload that is not JSON is passed
/// over.
pub open spec fn deltas_of(data: Seq<Seq<char>>) -> Seq<JsonView>
    decreases data.len(),
{
    if data.len() == 0 {
        Seq::empty()
    } else {
        let before = deltas_of(data.drop_last());
        match json_from_str(data.last()) {
            Ok(v) => before.push(v),
            Err(_) => before,
        }
    }
}

/// A reader of the event stream.
#[derive(Debug)]
pub struct SseDecoder {
    buffer: Vec<u8>,
    done: bool,
}

/// What a reader of the stream holds: the bytes that no blank line has ended
/// yet, and whether the end marker has been met.
pub struct DecoderView {
    pub pending: Seq<u8>,
    pub done: bool,
}

impl View for SseDecoder {
    type V = DecoderView;

    closed spec fn view(&self) -> DecoderView {
        DecoderView { pending: self.buffer@, done: self.done }
    }
}

/// What a reader that holds `d` yields when `chunk` arrives. After the end
/// marker it yields nothing more.
pub open spec fn received(d: DecoderView, chunk: Seq<u8>) -> Seq<JsonView> {
    if d.done {
        Seq::empty()
    } else {
        deltas_of(drain(d.pending + chunk).payloads.data)
    }
}

/// What a reader that held `d` holds when `chunk` has arrived.
pub open spec fn advanced(d: DecoderView, chunk: Seq<u8>) -> DecoderView {
    if d.done {
        d
    } else {
        let out = drain(d.pending + chunk);
        DecoderView { pending: out.rest, done: out.payloads.done }
    }
}

/// The payload of the line from `from` up to `to`.
fn payload_of(cs: &Vec<char>, from: usize, to: usize) -> (r: Option<String>)
    requires
        from <= to <= cs@.len(),
    ensures
        option_string(r) == line_payload(cs@.subrange(from as int, to as int)),
{
    let line = text_of(cs.as_slice(), from, to);
    let line = trim(line.as_str());
    match strip_prefix(line.as_str(), "data:") {
        Some(rest) => Some(trim(rest.as_str())),
        None => None,
    }
}

/// What the lines of an event hold: the payloads of its data lines up to the end
/// marker, and whether the marker was met.
pub fn read_event(event: &str) -> (r: (Vec<String>, bool))
    ensures
        texts(r.0@) == event_payloads(event@).data,
        r.1 == event_payloads(event@).done,
{
    let cs = chars_of(event);
    let ghost whole = event_payloads(event@);
    let mut data: Vec<String> = Vec::new();
    let mut at: usize = 0;
    assert(cs@.skip(0) =~= event@);
    assert(texts(data@) + whole.data =~= whole.data);
    while at < cs.len()
        invariant
            at <= cs@.len(),
            whole == event_payloads(event@),
            whole == then_payloads(texts(data@), event_payloads(cs@.skip(at as int))),
        decreases cs@.len() - at,
    {
        let ghost left = cs@.skip(at as int);
        let mut end: usize = at;
        while end < cs.len() && cs[end] != '\n'
            invariant
                at <= end <= cs@.len(),
                left == cs@.skip(at as int),
                line_end(left) == end - at + line_end(cs@.skip(end as int)),
            decreases cs@.len() - end,
        {
            assert(cs@.skip(end as int).drop_first() =~= cs@.skip(end + 1));
            end = end + 1;
        }
        assert(line_end(left) == end - at);
        assert(left.take(line_end(left)) =~= cs@.subrange(at as int, end as int));
        let next: usize = if end < cs.len() {
            end + 1
        } else {
            end
        };
        assert(after_line(left) =~= cs@.skip(next as int));
        match payload_of(&cs, at, end) {
            None => {},
            Some(p) => {
                if same(p.as_str(), "[DONE]") {
                    assert(whole.data =~= texts(data@));
                    return (data, true);
                }
                let ghost before = texts(data@);
                data.push(p);
                proof {
                    let rest = event_payloads(cs@.skip(next as int));
                    assert(texts(data@) =~= before.push(p@));
                    assert(before + (seq![p@] + rest.data) =~= texts(data@) + rest.data);
                }
            },
        }
        at = next;
    }
    assert(whole.data =~= texts(data@));
    (data, false)
}

/// Adds the JSON values among some payloads to `out`.
fn parse_payloads(data: &Vec<String>, out: &mut Vec<Json>)
    ensures
        array_view(final(out)@) == array_view(old(out)@) + deltas_of(texts(data@)),
{
    let ghost given = texts(data@);
    let ghost start = array_view(out@);
    let mut i: usize = 0;
    assert(start + deltas_of(given.take(0)) =~= start);
    while i < data.len()
        invariant
            i <= data@.len(),
            given == texts(data@),
            array_view(out@) == start + deltas_of(given.take(i as int)),
        decreases data@.len() - i,
    {
        assert(given.take(i + 1).drop_last() =~= given.take(i as int));
        assert(given.take(i + 1).last() == data@[i as int]@);
        match parse(data[i].as_str()) {
            Ok(v) => {
                let ghost kept = out@;
                out.push(v);
                assert(array_view(out@) =~= array_view(kept).push(v@));
                assert(array_view(out@) =~= start + deltas_of(given.take(i + 1)));
            },
            Err(_) => {},
        }
        i = i + 1;
    }
    assert(given.take(given.len() as int) =~= given);
}

/// The place of the first blank line at or after `from`.
fn find_break(bytes: &Vec<u8>, from: usize) -> (r: Option<usize>)
    requires
        from <= bytes@.len(),
    ensures
        r is Some <==> first_break(bytes@.skip(from as int)) is Some,
        r matches Some(i) ==> from <= i && i + 2 <= bytes@.len() && first_break(
            bytes@.skip(from as int),
        ) == Some(i - from),
{
    let ghost whole = first_break(bytes@.skip(from as int));
    let mut i: usize = from;
    while i < bytes.len() && bytes.len() - i >= 2
        invariant
            from <= i <= bytes@.len(),
            whole == match first_break(bytes@.skip(i as int)) {
                Some(k) => Some(k + (i - from)),
                None => None,
            },
            whole == first_break(bytes@.skip(from as int)),
        decreases bytes@.len() - i,
    {
        assert(bytes@.skip(i as int).drop_first() =~= bytes@.skip(i + 1));
        if bytes[i] == 0x0a && bytes[i + 1] == 0x0a {
            assert(break_at(bytes@.skip(i as int), 0));
            return Some(i);
        }
        assert(!break_at(bytes@.skip(i as int), 0));
        i = i + 1;
    }
    None
}

/// The values of two runs of payloads are those of the first and then those of
/// the second.
proof fn lemma_deltas_of_concat(a: Seq<Seq<char>>, b: Seq<Seq<char>>)
    ensures
        deltas_of(a + b) == deltas_of(a) + deltas_of(b),
    decreases b.len(),
{
    if b.len() == 0 {
        assert(a + b =~= a);
        assert(deltas_of(a) + deltas_of(b) =~= deltas_of(a));
    } else {
        assert((a + b).drop_last() =~= a + b.drop_last());
        lemma_deltas_of_concat(a, b.drop_last());
        assert(deltas_of(a + b) =~= deltas_of(a) + deltas_of(b));
    }
}

impl SseDecoder {
    /// A reader at the start of a stream.
    pub fn new() -> (r: SseDecoder)
        ensures
            r@ == fresh(),
    {
        SseDecoder { buffer: Vec::new(), done: false }
    }

    /// Whether the end marker has been met.
    pub fn is_done(&self) -> (r: bool)
        ensures
            r == self@.done,
    {
        self.done
    }

    /// Takes the next bytes of the stream and returns the JSON values of the
    /// events that are complete. An event is decoded when all of it is there.
    pub fn feed(&mut self, chunk: &[u8]) -> (r: Vec<Json>)
        ensures
            array_view(r@) == received(old(self)@, chunk@),
            final(self)@ == advanced(old(self)@, chunk@),
    {
        let mut out: Vec<Json> = Vec::new();
        if self.done {
            assert(array_view(out@) =~= Seq::empty());
            return out;
        }
        let mut bytes: Vec<u8> = Vec::new();
        bytes.append(&mut self.buffer);
        bytes.extend_from_slice(chunk);
        let ghost whole = drain(bytes@);
        let ghost mut seen: Seq<Seq<char>> = Seq::empty();
        let mut from: usize = 0;
        assert(bytes@ =~= old(self)@.pending + chunk@);
        assert(bytes@.skip(0) =~= bytes@);
        assert(seen + whole.payloads.data =~= whole.payloads.data);
        assert(array_view(out@) =~= deltas_of(seen));
        loop
            invariant_except_break
                !self.done,
                from <= bytes@.len(),
                bytes@ == old(self)@.pending + chunk@,
                !old(self)@.done,
                whole == drain(bytes@),
                whole.payloads == then_payloads(seen, drain(bytes@.skip(from as int)).payloads),
                whole.rest == drain(bytes@.skip(from as int)).rest,
                array_view(out@) == deltas_of(seen),
            ensures
                self@ == advanced(old(self)@, chunk@),
                array_view(out@) == received(old(self)@, chunk@),
            decreases bytes@.len() - from,
        {
            let ghost left = bytes@.skip(from as int);
            match find_break(&bytes, from) {
                None => {
                    self.buffer = bytes.split_off(from);
                    self.done = false;
                    assert(self.buffer@ =~= left);
                    assert(whole.payloads.data =~= seen);
                    break;
                },
                Some(i) => {
                    assert(bytes.len() == bytes@.len());
                    let end: usize = i + 2;
                    assert(left.take(i - from + 2) =~= bytes@.subrange(from as int, end as int));
                    assert(left.skip(i - from + 2) =~= bytes@.skip(end as int));
                    let ghost before = seen;
                    let text = decode(vstd::slice::slice_subrange(bytes.as_slice(), from, end));
                    let (data, done) = read_event(text.as_str());
                    parse_payloads(&data, &mut out);
                    proof {
                        let event = event_payloads(text@);
                        seen = seen + event.data;
                        lemma_deltas_of_concat(before, event.data);
                        assert(before + (event.data + drain(bytes@.skip(end as int)).payloads.data)
                            =~= seen + drain(bytes@.skip(end as int)).payloads.data);
                    }
                    if done {
                        self.buffer = Vec::new();
                        self.done = true;
                        assert(whole.payloads.data =~= seen);
                        break;
                    }
                    from = end;
                },
            }
        }
        out
    }
}

/// The first blank line stays the first when more bytes follow.
proof fn lemma_first_break_extends(s: Seq<u8>, more: Seq<u8>)
    requires
        first_break(s) is Some,
    ensures
        first_break(s + more) == first_break(s),
{
    lemma_first_break(s);
    lemma_first_break(s + more);
    let i = first_break(s)->0;
    assert(break_at(s + more, i));
    assert(first_break(s + more) is Some);
    let k = first_break(s + more)->0;
    if k < i {
        assert(break_at(s, k));
    }
}

/// What some bytes yield when more follow is what they yield alone, and then what
/// their rest yields with what follows.
proof fn lemma_drain_extends(s: Seq<u8>, more: Seq<u8>)
    ensures
        drain(s).payloads.done ==> drain(s + more) == drain(s),
        !drain(s).payloads.done ==> {
            let after = drain(drain(s).rest + more);
            &&& drain(s + more).payloads == then_payloads(drain(s).payloads.data, after.payloads)
            &&& drain(s + more).rest == after.rest
        },
    decreases s.len(),
{
    if first_break(s) is None {
        assert(drain(s).rest == s);
        let after = drain(s + more);
        assert(drain(s).payloads.data + after.payloads.data =~= after.payloads.data);
    } else {
        let i = first_break(s)->0;
        lemma_first_break(s);
        lemma_first_break_extends(s, more);
        assert((s + more).take(i + 2) =~= s.take(i + 2));
        assert((s + more).skip(i + 2) =~= s.skip(i + 2) + more);
        let event = event_payloads(decoded(s.take(i + 2)));
        if !event.done {
            let t = s.skip(i + 2);
            lemma_drain_extends(t, more);
            let after = drain(drain(t).rest + more);
            assert(event.data + (drain(t).payloads.data + after.payloads.data) =~= (event.data
                + drain(t).payloads.data) + after.payloads.data);
        }
    }
}

/// However the bytes of a stream are cut into chunks, within a line or within a
/// character, the reader yields the same values and ends up holding the same.
pub proof fn law_chunks_make_no_difference(d: DecoderView, first: Seq<u8>, second: Seq<u8>)
    ensures
        received(d, first + second) == received(d, first) + received(advanced(d, first), second),
        advanced(d, first + second) == advanced(advanced(d, first), second),
{
    if d.done {
        assert(received(d, first) + received(advanced(d, first), second) =~= Seq::empty());
    } else {
        let s = d.pending + first;
        lemma_drain_extends(s, second);
        assert(d.pending + (first + second) =~= s + second);
        let out = drain(s);
        if out.payloads.done {
            assert(received(d, first) + Seq::<JsonView>::empty() =~= received(d, first));
        } else {
            let after = drain(out.rest + second);
            lemma_deltas_of_concat(out.payloads.data, after.payloads.data);
        }
    }
}

/// What a reader holds at the start of a stream.
pub open spec fn fresh() -> DecoderView {
    DecoderView { pending: Seq::empty(), done: false }
}

/// The bytes that some chunks make up.
pub open spec fn body_of(chunks: Seq<Seq<u8>>) -> Seq<u8>
    decreases chunks.len(),
{
    if chunks.len() == 0 {
        Seq::empty()
    } else {
        body_of(chunks.drop_last()) + chunks.last()
    }
}

/// What a reader holds when some chunks of a stream have arrived.
pub open spec fn advanced_all(chunks: Seq<Seq<u8>>) -> DecoderView
    decreases chunks.len(),
{
    if chunks.len() == 0 {
        fresh()
    } else {
        advanced(advanced_all(chunks.drop_last()), chunks.last())
    }
}

/// What a reader yields as the chunks of a stream arrive.
pub open spec fn received_all(chunks: Seq<Seq<u8>>) -> Seq<JsonView>
    decreases chunks.len(),
{
    if chunks.len() == 0 {
        Seq::empty()
    } else {
        received_all(chunks.drop_last()) + received(
            advanced_all(chunks.drop_last()),
            chunks.last(),
        )
    }
}

/// What a stream delivers is what its body holds, however it is cut into chunks.
pub proof fn law_only_the_body_counts(chunks: Seq<Seq<u8>>)
    ensures
        received_all(chunks) == received(fresh(), body_of(chunks)),
        advanced_all(chunks) == advanced(fresh(), body_of(chunks)),
    decreases chunks.len(),
{
    if chunks.len() == 0 {
        let nothing = Seq::<u8>::empty();
        assert(fresh().pending + nothing =~= nothing);
        assert(first_break(nothing) is None);
        assert(received(fresh(), nothing) =~= Seq::empty());
    } else {
        law_only_the_body_counts(chunks.drop_last());
        law_chunks_make_no_difference(fresh(), body_of(chunks.drop_last()), chunks.last());
    }
}

/// Once the end marker has been met, nothing more is read.
pub proof fn law_nothing_follows_the_end(d: DecoderView, chunk: Seq<u8>)
    requires
        d.done,
    ensures
        received(d, chunk) == Seq::<JsonView>::empty(),
        advanced(d, chunk) == d,
{
}

/// The first line ends where the first newline stands.
proof fn lemma_line_end_is(s: Seq<char>, n: int)
    requires
        0 <= n < s.len(),
        s[n] == '\n',
        forall|i: int| 0 <= i < n ==> s[i] != '\n',
    ensures
        line_end(s) == n,
{
    lemma_line_end(s);
    if line_end(s) < n {
        assert(s[line_end(s)] == '\n');
    }
}

/// Whether a blank line begins at `i` of a text: two newlines in a row.
pub open spec fn blank_line_at(s: Seq<char>, i: int) -> bool {
    0 <= i && i + 1 < s.len() && s[i] == '\n' && s[i + 1] == '\n'
}

/// A text that a newline ends and that has no blank line has none in its bytes.
proof fn lemma_no_break_in_bytes(s: Seq<char>)
    requires
        forall|i: int| !blank_line_at(s.push('\n'), i),
    ensures
        forall|i: int| !break_at(encoded(s).push(0x0a), i),
    decreases s.len(),
{
    let bytes = encoded(s).push(0x0a);
    if s.len() > 0 {
        let c = s[0];
        let t = s.drop_first();
        let first = vstd::utf8::encode_scalar(c as u32);
        let n = first.len() as int;
        let rest = encoded(t).push(0x0a);
        crate::utf8::lemma_newline_in_char(c);
        assert forall|i: int| !blank_line_at(t.push('\n'), i) by {
            assert(!blank_line_at(s.push('\n'), i + 1));
        }
        lemma_no_break_in_bytes(t);
        assert(bytes =~= first + rest);
        assert forall|i: int| !break_at(bytes, i) by {
            if n <= i && i + 1 < bytes.len() {
                assert(!break_at(rest, i - n));
            } else if 0 <= i < n && c == '\n' {
                assert(!blank_line_at(s.push('\n'), 0));
                crate::utf8::lemma_newline_in_char(t[0]);
                crate::utf8::lemma_char_bytes(t[0]);
                assert(rest[0] == vstd::utf8::encode_scalar(t[0] as u32)[0]);
            } else if 0 <= i < n {
                assert(bytes[i] == first[i]);
            }
        }
    }
}

/// A text that a blank line ends, and that has none before, is read as one event
/// wherever it stands in the stream: its lines yield what they hold, whatever
/// characters they are made of, and what follows is read after it.
pub proof fn law_an_event_is_read_as_its_lines(event: Seq<char>, rest: Seq<u8>)
    requires
        forall|i: int| !blank_line_at(event.push('\n'), i),
    ensures
        ({
            let bytes = encoded(event + "\n\n"@) + rest;
            let lines = event_payloads(event + "\n\n"@);
            drain(bytes) == if lines.done {
                Drained { payloads: lines, rest: Seq::empty() }
            } else {
                Drained {
                    payloads: then_payloads(lines.data, drain(rest).payloads),
                    rest: drain(rest).rest,
                }
            }
        }),
{
    reveal_strlit("\n\n");
    let text = event + "\n\n"@;
    let bytes = encoded(text) + rest;
    let n = encoded(event).len() as int;
    let two = seq![0x0au8, 0x0au8];
    assert(encoded("\n\n"@) =~= two) by {
        vstd::utf8::is_ascii_chars_encode_utf8("\n\n"@);
        assert("\n\n"@[0] as u8 == 0x0a && "\n\n"@[1] as u8 == 0x0a);
    }
    crate::utf8::lemma_encoded_concat(event, "\n\n"@);
    lemma_no_break_in_bytes(event);
    lemma_first_break(bytes);
    assert(break_at(bytes, n));
    let k = first_break(bytes)->0;
    assert(k == n) by {
        if k < n {
            let shorter = encoded(event).push(0x0a);
            assert(bytes[k] == shorter[k] && bytes[k + 1] == shorter[k + 1]);
            assert(break_at(shorter, k));
        }
    }
    assert(bytes.take(n + 2) =~= encoded(text));
    assert(bytes.skip(n + 2) =~= rest);
    crate::utf8::law_text_is_decoded_back(text);
}

/// The payload of the line `data: ` and a payload is that payload.
proof fn lemma_data_line(payload: Seq<char>)
    requires
        trimmed(payload) == payload,
    ensures
        line_payload("data: "@ + payload) == Some(payload),
{
    reveal_strlit("data: ");
    reveal_strlit("data:");
    let line = "data: "@ + payload;
    let tail = seq![' '] + payload;
    assert(trimmed(tail) == payload) by {
        crate::text::law_padding_is_trimmed(seq![' '], payload, Seq::empty());
        assert(seq![' '] + payload + Seq::<char>::empty() =~= tail);
    }
    assert(trimmed(line) == "data:"@ + crate::text::trim_end(tail)) by {
        assert(crate::text::trim_start(line) == line);
        assert(line =~= "data:"@ + tail);
        crate::text::lemma_trim_end_after("data:"@, tail);
    }
    let kept = crate::text::trim_end(tail);
    assert(("data:"@ + kept).skip(5) =~= kept);
    assert("data:"@.is_prefix_of("data:"@ + kept)) by {
        assert(("data:"@ + kept).subrange(0, 5) =~= "data:"@);
    }
    crate::text::lemma_trim_twice(tail);
}

/// A line of data that is sent as an event of its own is read back as it was:
/// `data: `, the payload and a blank line yield the payload, and leave what
/// follows them to be read.
pub proof fn law_a_data_line_is_read_back(payload: Seq<char>, rest: Seq<u8>)
    requires
        trimmed(payload) == payload,
        forall|i: int| 0 <= i < payload.len() ==> payload[i] != '\n',
        payload != "[DONE]"@,
    ensures
        drain(encoded("data: "@ + payload + "\n\n"@) + rest) == (Drained {
            payloads: then_payloads(seq![payload], drain(rest).payloads),
            rest: drain(rest).rest,
        }),
{
    reveal_strlit("data: ");
    reveal_strlit("data:");
    reveal_strlit("\n\n");
    let head = "data: "@;
    let line = head + payload;
    let s = line + "\n\n"@;
    let n = line.len() as int;
    assert forall|i: int| 0 <= i < n implies line[i] != '\n' by {
        if i >= head.len() {
            assert(line[i] == payload[i - head.len()]);
        }
    }
    assert forall|i: int| !blank_line_at(line.push('\n'), i) by {
        if 0 <= i < n {
            assert(line.push('\n')[i] == line[i]);
        }
    }
    law_an_event_is_read_as_its_lines(line, rest);
    // The event is that line and an empty one.
    lemma_line_end_is(s, n);
    assert(s.take(n) =~= line);
    lemma_data_line(payload);
    let after = after_line(s);
    assert(after =~= seq!['\n']);
    lemma_line_end_is(after, 0);
    assert(after.take(0) =~= Seq::<char>::empty());
    assert(after_line(after) =~= Seq::<char>::empty());
    assert(line_payload(after.take(0)) is None);
    reveal_with_fuel(event_payloads, 4);
    assert(event_payloads(s).data =~= seq![payload]);
}

/// The values of payloads are what the parser reads of them, one after the
/// other: each payload that is JSON gives its value, and any other gives none.
pub proof fn law_every_json_payload_gives_its_value(
    before: Seq<Seq<char>>,
    payload: Seq<char>,
    after: Seq<Seq<char>>,
)
    ensures
        json_from_str(payload) matches Ok(v) ==> deltas_of(before + seq![payload] + after)
            == deltas_of(before) + seq![v] + deltas_of(after),
        json_from_str(payload) is Err ==> deltas_of(before + seq![payload] + after) == deltas_of(
            before,
        ) + deltas_of(after),
        deltas_of(Seq::empty()).len() == 0,
{
    let one = seq![payload];
    lemma_deltas_of_concat(before + one, after);
    lemma_deltas_of_concat(before, one);
    assert(one.drop_last() =~= Seq::empty());
    reveal_with_fuel(deltas_of, 2);
    if let Ok(v) = json_from_str(payload) {
        assert(deltas_of(one) =~= seq![v]);
    } else {
        assert(deltas_of(one) =~= Seq::empty());
        assert(deltas_of(before) + deltas_of(one) =~= deltas_of(before));
    }
}

/// A value that is sent is received: where a payload is JSON, a reader that is
/// fed `data: `, the payload and a blank line yields exactly its value, and then
/// what it would yield of what follows. A payload that is not JSON is passed
/// over.
pub proof fn law_a_value_that_is_sent_is_received(payload: Seq<char>, rest: Seq<u8>)
    requires
        trimmed(payload) == payload,
        forall|i: int| 0 <= i < payload.len() ==> payload[i] != '\n',
        payload != "[DONE]"@,
    ensures
        ({
            let sent = encoded("data: "@ + payload + "\n\n"@);
            &&& json_from_str(payload) matches Ok(v) ==> {
                &&& received(fresh(), sent) == seq![v]
                &&& received(fresh(), sent + rest) == seq![v] + received(fresh(), rest)
            }
            &&& json_from_str(payload) is Err ==> {
                &&& received(fresh(), sent) == Seq::<JsonView>::empty()
                &&& received(fresh(), sent + rest) == received(fresh(), rest)
            }
            &&& advanced(fresh(), sent + rest) == advanced(fresh(), rest)
        }),
{
    let sent = encoded("data: "@ + payload + "\n\n"@);
    let nothing = Seq::<u8>::empty();
    let none = Seq::<Seq<char>>::empty();
    law_a_data_line_is_read_back(payload, rest);
    law_a_data_line_is_read_back(payload, nothing);
    assert(sent + nothing =~= sent);
    assert(fresh().pending + (sent + rest) =~= sent + rest);
    assert(fresh().pending + sent =~= sent);
    assert(fresh().pending + rest =~= rest);
    assert(first_break(nothing) is None);
    let data = drain(rest).payloads.data;
    law_every_json_payload_gives_its_value(none, payload, data);
    law_every_json_payload_gives_its_value(none, payload, none);
    assert(none + seq![payload] + data =~= seq![payload] + data);
    assert(none + seq![payload] + none =~= seq![payload]);
    assert(seq![payload] + drain(nothing).payloads.data =~= seq![payload]);
    if let Ok(v) = json_from_str(payload) {
        assert(deltas_of(none) + seq![v] + deltas_of(none) =~= seq![v]);
        assert(deltas_of(none) + seq![v] + deltas_of(data) =~= seq![v] + deltas_of(data));
    } else {
        assert(deltas_of(none) + deltas_of(none) =~= Seq::empty());
        assert(deltas_of(none) + deltas_of(data) =~= deltas_of(data));
    }
}

/// The lines of an event count one by one. One that starts with `data:`, white
/// space aside, gives what follows that, without white space around it, and the
/// end marker ends the event there. Any other line gives nothing.
pub proof fn law_lines_of_an_event_count_one_by_one(
    line: Seq<char>,
    data: Seq<char>,
    rest: Seq<char>,
)
    requires
        forall|i: int| 0 <= i < line.len() ==> line[i] != '\n',
    ensures
        ({
            let event = event_payloads(line + seq!['\n'] + rest);
            let others = event_payloads(rest);
            &&& trimmed(line) == "data:"@ + data && trimmed(data) == "[DONE]"@ ==> event.done
                && event.data.len() == 0
            &&& trimmed(line) == "data:"@ + data && trimmed(data) != "[DONE]"@ ==> event.done
                == others.done && event.data == seq![trimmed(data)] + others.data
            &&& !"data:"@.is_prefix_of(trimmed(line)) ==> event.done == others.done && event.data
                == others.data
        }),
        event_payloads(Seq::empty()).data.len() == 0,
        !event_payloads(Seq::empty()).done,
{
    let s = line + seq!['\n'] + rest;
    let n = line.len() as int;
    assert forall|i: int| 0 <= i < n implies s[i] != '\n' by {
        assert(s[i] == line[i]);
    }
    lemma_line_end_is(s, n);
    assert(s.take(n) =~= line);
    assert(after_line(s) =~= rest);
    crate::text::law_a_prefix_is_taken_off(trimmed(line), "data:"@, data);
}

/// The end marker ends the stream: nothing is read of what follows it.
pub proof fn law_the_end_marker_ends_the_stream(rest: Seq<u8>, later: Seq<u8>)
    ensures
        ({
            let marker = encoded("data: [DONE]"@ + "\n\n"@);
            &&& received(fresh(), marker + rest) == Seq::<JsonView>::empty()
            &&& advanced(fresh(), marker + rest).done
            &&& received(advanced(fresh(), marker + rest), later) == Seq::<JsonView>::empty()
        }),
{
    reveal_strlit("data: [DONE]");
    reveal_strlit("data:");
    reveal_strlit("[DONE]");
    reveal_strlit("\n\n");
    let line = "data: [DONE]"@;
    let marker = encoded(line + "\n\n"@);
    assert forall|i: int| !blank_line_at(line.push('\n'), i) by {
        if 0 <= i < line.len() {
            assert(line.push('\n')[i] == line[i]);
        }
    }
    law_an_event_is_read_as_its_lines(line, rest);
    assert(line + "\n\n"@ =~= line + seq!['\n'] + seq!['\n']);
    let data = seq![' '] + "[DONE]"@;
    assert(line =~= "data:"@ + data);
    assert(trimmed(line) == line) by {
        assert(crate::text::trim_start(line) == line);
    }
    assert(trimmed("[DONE]"@) == "[DONE]"@) by {
        assert(crate::text::trim_start("[DONE]"@) == "[DONE]"@);
    }
    crate::text::law_padding_is_trimmed(seq![' '], "[DONE]"@, Seq::empty());
    assert(seq![' '] + "[DONE]"@ + Seq::<char>::empty() =~= data);
    law_lines_of_an_event_count_one_by_one(line, data, seq!['\n']);
    assert(fresh().pending + (marker + rest) =~= marker + rest);
    assert(event_payloads(line + "\n\n"@).data =~= Seq::empty());
}

/// As long as no blank line has come, nothing is read, and every byte is kept.
pub proof fn law_nothing_is_read_before_a_blank_line(bytes: Seq<u8>)
    requires
        forall|i: int|
            #![trigger bytes[i]]
            0 <= i < bytes.len() - 1 ==> !(bytes[i] == 0x0a && bytes[i + 1] == 0x0a),
    ensures
        received(fresh(), bytes) == Seq::<JsonView>::empty(),
        advanced(fresh(), bytes) == (DecoderView { pending: bytes, done: false }),
{
    assert(fresh().pending + bytes =~= bytes);
    lemma_first_break(bytes);
    if let Some(i) = first_break(bytes) {
        assert(break_at(bytes, i));
        assert(bytes[i] == 0x0a);
    }
}

} // verus!
