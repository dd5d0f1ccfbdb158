//! One reply of the model: how the deltas of a stream add up to its text and
//! its tool calls.

use vstd::prelude::*;

use crate::ids::{is_random_uuid, new_uuid};
use crate::json::{array_view, json_from_str, option_view, parse, parse_view, Json, JsonView};
use crate::text::option_string;

verus! {

/// A tool call as far as the stream has brought it.
#[derive(Debug)]
pub struct PartialCall {
    pub id: Option<String>,
    pub name: String,
    pub arguments: String,
}

/// A reply as far as the stream has brought it.
#[derive(Debug)]
pub struct Reply {
    pub content: String,
    pub calls: Vec<PartialCall>,
}

/// A complete tool call.
#[derive(Debug)]
pub struct ToolCall {
    pub id: String,
    pub name: String,
    pub arguments: Json,
}

/// A tool call as far as the stream has brought it, as text.
pub struct PartialView {
    pub id: Option<Seq<char>>,
    pub name: Seq<char>,
    pub arguments: Seq<char>,
}

/// A reply as far as the stream has brought it, as text.
pub struct ReplyView {
    pub content: Seq<char>,
    pub calls: Seq<PartialView>,
}

/// A complete tool call, as text and JSON.
pub struct CallView {
    pub id: Seq<char>,
    pub name: Seq<char>,
    pub arguments: JsonView,
}

impl View for PartialCall {
    type V = PartialView;

    open spec fn view(&self) -> PartialView {
        PartialView { id: option_string(self.id), name: self.name@, arguments: self.arguments@ }
    }
}

/// What some partial calls are.
pub open spec fn partial_views(calls: Seq<PartialCall>) -> Seq<PartialView> {
    calls.map_values(|c: PartialCall| c@)
}

impl View for Reply {
    type V = ReplyView;

    open spec fn view(&self) -> ReplyView {
        ReplyView { content: self.content@, calls: partial_views(self.calls@) }
    }
}

impl View for ToolCall {
    type V = CallView;

    open spec fn view(&self) -> CallView {
        CallView { id: self.id@, name: self.name@, arguments: self.arguments@ }
    }
}

/// What some calls are.
pub open spec fn call_views(calls: Seq<ToolCall>) -> Seq<CallView> {
    calls.map_values(|c: ToolCall| c@)
}

/// A call of which nothing has come yet.
pub open spec fn no_call() -> PartialView {
    PartialView { id: None, name: Seq::empty(), arguments: Seq::empty() }
}

/// A reply of which nothing has come yet.
pub open spec fn no_reply() -> ReplyView {
    ReplyView { content: Seq::empty(), calls: Seq::empty() }
}

/// The change that a delta brings, where it brings one.
pub open spec fn change_of(delta: JsonView) -> Option<JsonView> {
    match delta.get("choices"@) {
        Some(choices) => match choices.at(0) {
            Some(choice) => choice.get("delta"@),
            None => None,
        },
        None => None,
    }
}

/// The text that a delta brings, where it brings some.
pub open spec fn token_of(delta: JsonView) -> Option<Seq<char>> {
    match change_of(delta) {
        Some(change) => change.get_text("content"@),
        None => None,
    }
}

/// The pieces of tool calls that a delta brings.
pub open spec fn pieces_of(delta: JsonView) -> Seq<JsonView> {
    match change_of(delta) {
        Some(change) => match change.get("tool_calls"@) {
            Some(JsonView::Array(pieces)) => pieces,
            _ => Seq::empty(),
        },
        None => Seq::empty(),
    }
}

/// The place of the call that a piece belongs to; the first where it does not
/// say.
pub open spec fn place_of(piece: JsonView) -> usize {
    match piece.get("index"@) {
        Some(i) => match i.unsigned() {
            Some(u) => u as usize,
            None => 0,
        },
        None => 0,
    }
}

/// A call with a piece added: an id replaces the one there was, a name that is
/// not empty does too, and arguments are appended.
pub open spec fn extended(call: PartialView, piece: JsonView) -> PartialView {
    PartialView {
        id: match piece.get_text("id"@) {
            Some(id) => Some(id),
            None => call.id,
        },
        name: match piece.get("function"@) {
            Some(f) => match f.get_text("name"@) {
                Some(name) if name.len() > 0 => name,
                _ => call.name,
            },
            None => call.name,
        },
        arguments: match piece.get("function"@) {
            Some(f) => match f.get_text("arguments"@) {
                Some(arguments) => call.arguments + arguments,
                None => call.arguments,
            },
            None => call.arguments,
        },
    }
}

/// `calls` filled up with calls of which nothing has come yet, until there are
/// `n` of them.
pub open spec fn filled_up(calls: Seq<PartialView>, n: nat) -> Seq<PartialView> {
    if calls.len() >= n {
        calls
    } else {
        calls + Seq::new((n - calls.len()) as nat, |i: int| no_call())
    }
}

/// The calls with a piece added to the one it belongs to.
pub open spec fn with_piece(calls: Seq<PartialView>, piece: JsonView) -> Seq<PartialView> {
    let at = place_of(piece) as int;
    let full = filled_up(calls, (at + 1) as nat);
    full.update(at, extended(full[at], piece))
}

/// The calls with some pieces added, one after the other.
pub open spec fn with_pieces(calls: Seq<PartialView>, pieces: Seq<JsonView>) -> Seq<PartialView>
    decreases pieces.len(),
{
    if pieces.len() == 0 {
        calls
    } else {
        with_piece(with_pieces(calls, pieces.drop_last()), pieces.last())
    }
}

/// A reply with a delta added.
pub open spec fn absorbed(reply: ReplyView, delta: JsonView) -> ReplyView {
    ReplyView {
        content: match token_of(delta) {
            Some(t) => reply.content + t,
            None => reply.content,
        },
        calls: with_pieces(reply.calls, pieces_of(delta)),
    }
}

/// A reply with some deltas added, one after the other.
pub open spec fn absorbed_all(reply: ReplyView, deltas: Seq<JsonView>) -> ReplyView
    decreases deltas.len(),
{
    if deltas.len() == 0 {
        reply
    } else {
        absorbed(absorbed_all(reply, deltas.drop_last()), deltas.last())
    }
}

/// Whether a vector can hold the calls that a delta speaks of.
pub open spec fn places_fit(delta: JsonView) -> bool {
    forall|i: int|
        0 <= i < pieces_of(delta).len() ==> place_of(#[trigger] pieces_of(delta)[i]) < usize::MAX
}

/// The change that a delta brings.
fn change(delta: &Json) -> (r: Option<&Json>)
    ensures
        option_view(r) == change_of(delta@),
{
    match delta.get("choices") {
        Some(choices) => match choices.at(0) {
            Some(choice) => choice.get("delta"),
            None => None,
        },
        None => None,
    }
}

/// The place of the call that a piece belongs to.
fn place(piece: &Json) -> (r: usize)
    ensures
        r == place_of(piece@),
{
    match piece.get("index") {
        Some(i) => match i.as_u64() {
            Some(u) => u as usize,
            None => 0,
        },
        None => 0,
    }
}

/// Whether a vector can hold the calls that a delta speaks of.
pub fn delta_fits(delta: &Json) -> (r: bool)
    ensures
        r == places_fit(delta@),
{
    let pieces = match change(delta) {
        Some(change) => match change.get("tool_calls") {
            Some(Json::Array(pieces)) => pieces,
            _ => return true,
        },
        None => return true,
    };
    let mut i: usize = 0;
    while i < pieces.len()
        invariant
            i <= pieces@.len(),
            pieces_of(delta@) == array_view(pieces@),
            forall|k: int|
                0 <= k < i ==> place_of(#[trigger] pieces_of(delta@)[k]) < usize::MAX,
        decreases pieces@.len() - i,
    {
        if place(&pieces[i]) == usize::MAX {
            assert(place_of(pieces_of(delta@)[i as int]) == usize::MAX);
            return false;
        }
        i = i + 1;
    }
    true
}

impl PartialCall {
    /// A call of which nothing has come yet.
    fn empty() -> (r: PartialCall)
        ensures
            r@ == no_call(),
    {
        PartialCall { id: None, name: String::new(), arguments: String::new() }
    }

    /// Adds a piece to a call.
    fn extend(&mut self, piece: &Json)
        ensures
            final(self)@ == extended(old(self)@, piece@),
    {
        if let Some(id) = piece.get_str("id") {
            self.id = Some(id.to_owned());
        }
        if let Some(f) = piece.get("function") {
            if let Some(name) = f.get_str("name") {
                if !name.is_empty() {
                    self.name = name.to_owned();
                }
            }
            if let Some(arguments) = f.get_str("arguments") {
                self.arguments.append(arguments);
            }
        }
    }
}

impl Reply {
    /// A reply of which nothing has come yet.
    pub fn new() -> (r: Reply)
        ensures
            r@ == no_reply(),
    {
        let r = Reply { content: String::new(), calls: Vec::new() };
        assert(r@.calls =~= Seq::empty());
        r
    }

    /// Adds a piece to the call it belongs to.
    fn add_piece(&mut self, piece: &Json)
        requires
            place_of(piece@) < usize::MAX,
        ensures
            final(self)@.content == old(self)@.content,
            final(self)@.calls == with_piece(old(self)@.calls, piece@),
    {
        let at = place(piece);
        let ghost before = self@.calls;
        assert(before =~= filled_up(before, self.calls@.len()));
        while self.calls.len() <= at
            invariant
                at < usize::MAX,
                self@.content == old(self)@.content,
                before.len() <= self.calls@.len(),
                self@.calls == filled_up(before, self.calls@.len()),
                self.calls@.len() > before.len() ==> self.calls@.len() <= at + 1,
            decreases at + 1 - self.calls@.len(),
        {
            let ghost prev = self@.calls;
            self.calls.push(PartialCall::empty());
            assert(self@.calls =~= prev.push(no_call()));
            assert(self@.calls =~= filled_up(before, self.calls@.len()));
        }
        let ghost full = self@.calls;
        assert(full =~= filled_up(before, (at + 1) as nat));
        self.calls[at].extend(piece);
        assert(self@.calls =~= full.update(at as int, extended(full[at as int], piece@)));
    }

    /// Adds a delta of the stream. Returns the text that it brings, where it
    /// brings some.
    pub fn absorb(&mut self, delta: &Json) -> (r: Option<String>)
        requires
            places_fit(delta@),
        ensures
            final(self)@ == absorbed(old(self)@, delta@),
            option_string(r) == token_of(delta@),
    {
        let change = match change(delta) {
            Some(change) => change,
            None => return None,
        };
        let token = match change.get_str("content") {
            Some(t) => {
                self.content.append(t);
                Some(t.to_owned())
            },
            None => None,
        };
        if let Some(Json::Array(pieces)) = change.get("tool_calls") {
            let ghost given = array_view(pieces@);
            let ghost before = self@.calls;
            let ghost content = self@.content;
            assert(pieces_of(delta@) == given);
            assert(given.take(0) =~= Seq::empty());
            let mut i: usize = 0;
            while i < pieces.len()
                invariant
                    i <= pieces@.len(),
                    given == array_view(pieces@),
                    pieces_of(delta@) == given,
                    places_fit(delta@),
                    self@.content == content,
                    self@.calls == with_pieces(before, given.take(i as int)),
                decreases pieces@.len() - i,
            {
                proof {
                    assert(pieces_of(delta@)[i as int] == pieces@[i as int]@);
                    assert(given.take(i + 1).drop_last() =~= given.take(i as int));
                }
                self.add_piece(&pieces[i]);
                i = i + 1;
            }
            assert(given.take(given.len() as int) =~= given);
        }
        token
    }
}

/// The calls that have a name. A place in the list that no piece has named
/// counts for nothing.
pub open spec fn named(calls: Seq<PartialView>) -> Seq<PartialView>
    decreases calls.len(),
{
    if calls.len() == 0 {
        Seq::empty()
    } else if calls.last().name.len() > 0 {
        named(calls.drop_last()).push(calls.last())
    } else {
        named(calls.drop_last())
    }
}

/// The arguments that a parse of their text gave, or null where it failed.
pub open spec fn arguments_of(parsed: Result<JsonView, Seq<char>>) -> JsonView {
    match parsed {
        Ok(v) => v,
        Err(_) => JsonView::Null,
    }
}

/// The call that a partial one becomes, where `parsed` is what a parse of its
/// arguments gave and `fresh` makes its id where it has none.
pub open spec fn finished(
    call: PartialView,
    parsed: Result<JsonView, Seq<char>>,
    fresh: Seq<char>,
) -> CallView {
    CallView {
        id: match call.id {
            Some(id) => id,
            None => "call_"@ + fresh,
        },
        name: call.name,
        arguments: arguments_of(parsed),
    }
}

/// Whether `call` is what the partial call `from` becomes: an id that is missing
/// is made from a random UUID.
pub open spec fn is_finished(call: CallView, from: PartialView) -> bool {
    exists|fresh: Seq<char>|
        {
            &&& from.id is None ==> is_random_uuid(fresh)
            &&& call == #[trigger] finished(from, json_from_str(from.arguments), fresh)
        }
}

/// Whether `calls` are what the partial calls `from` become.
pub open spec fn are_finished(calls: Seq<CallView>, from: Seq<PartialView>) -> bool {
    &&& calls.len() == from.len()
    &&& forall|i: int| 0 <= i < calls.len() ==> is_finished(#[trigger] calls[i], from[i])
}

/// Makes a partial call into a complete one.
pub fn finish_call(call: PartialCall, parsed: Result<Json, String>, fresh: &str) -> (r: ToolCall)
    ensures
        r@ == finished(call@, parse_view(parsed), fresh@),
{
    let id = match call.id {
        Some(id) => id,
        None => {
            let mut id = "call_".to_owned();
            id.append(fresh);
            id
        },
    };
    let arguments = match parsed {
        Ok(v) => v,
        Err(_) => Json::Null,
    };
    ToolCall { id, name: call.name, arguments }
}

impl Reply {
    /// Ends the reply: its text, and its calls with their arguments parsed.
    /// Calls without a name are dropped.
    pub fn finish(self) -> (r: (String, Vec<ToolCall>))
        ensures
            r.0@ == self@.content,
            are_finished(call_views(r.1@), named(self@.calls)),
    {
        let content = self.content;
        let partial = self.calls;
        let ghost given = partial@;
        let ghost views = partial_views(given);
        let mut calls: Vec<ToolCall> = Vec::new();
        assert(views.take(0) =~= Seq::empty());
        for call in it: partial.into_iter()
            invariant
                it.seq() == given,
                views == partial_views(given),
                are_finished(call_views(calls@), named(views.take(it.index()))),
        {
            let ghost done = it.index();
            let ghost before = call_views(calls@);
            proof {
                assert(views.take(done + 1).drop_last() =~= views.take(done));
                assert(views.take(done + 1).last() == call@);
            }
            if !call.name.as_str().is_empty() {
                let ghost from = call@;
                let parsed = parse(call.arguments.as_str());
                let fresh = match &call.id {
                    Some(_) => String::new(),
                    None => new_uuid(),
                };
                let complete = finish_call(call, parsed, fresh.as_str());
                assert(is_finished(complete@, from));
                calls.push(complete);
                assert(call_views(calls@) =~= before.push(complete@));
                assert(named(views.take(done + 1)) == named(views.take(done)).push(from));
            }
        }
        assert(views.take(views.len() as int) =~= views);
        (content, calls)
    }
}

/// The text that some deltas bring, put together.
pub open spec fn tokens_of(deltas: Seq<JsonView>) -> Seq<char>
    decreases deltas.len(),
{
    if deltas.len() == 0 {
        Seq::empty()
    } else {
        tokens_of(deltas.drop_last()) + match token_of(deltas.last()) {
            Some(t) => t,
            None => Seq::empty(),
        }
    }
}

/// The text of a reply is the tokens that were shown as they came, put together.
pub proof fn law_tokens_add_up(deltas: Seq<JsonView>)
    ensures
        absorbed_all(no_reply(), deltas).content == tokens_of(deltas),
    decreases deltas.len(),
{
    if deltas.len() > 0 {
        law_tokens_add_up(deltas.drop_last());
        if token_of(deltas.last()) is None {
            assert(tokens_of(deltas) =~= tokens_of(deltas.drop_last()));
        }
    }
}

/// What the call at `i` of an answer of the local CLI is.
pub open spec fn local_call(calls: Seq<JsonView>, i: int) -> PartialView {
    PartialView {
        id: Some("call_local_"@ + crate::text::decimal(i as nat)),
        name: calls[i].get_text("name"@)->0,
        arguments: calls[i].get_text("arguments"@)->0,
    }
}

/// The fields of the delta for a call of the local CLI are what the agent reads
/// of it.
proof fn lemma_call_delta_fields(idx: nat, name: Seq<char>, args: Seq<char>)
    requires
        idx < usize::MAX,
    ensures
        ({
            let delta = crate::local_cli::call_delta(idx, name, args);
            let pieces = pieces_of(delta);
            &&& token_of(delta) is None
            &&& pieces.len() == 1
            &&& place_of(pieces[0]) == idx
            &&& pieces[0].get_text("id"@) == Some("call_local_"@ + crate::text::decimal(idx))
            &&& pieces[0].get("function"@) is Some
            &&& pieces[0].get("function"@)->0.get_text("name"@) == Some(name)
            &&& pieces[0].get("function"@)->0.get_text("arguments"@) == Some(args)
        }),
{
    reveal_strlit("choices");
    reveal_strlit("delta");
    reveal_strlit("content");
    reveal_strlit("tool_calls");
    reveal_strlit("index");
    reveal_strlit("id");
    reveal_strlit("type");
    reveal_strlit("function");
    reveal_strlit("name");
    reveal_strlit("arguments");
    assert("content"@.len() != "tool_calls"@.len());
    assert("index"@.len() != "id"@.len());
    assert("index"@.len() != "type"@.len());
    assert("index"@.len() != "function"@.len());
    assert("id"@.len() != "type"@.len());
    assert("id"@.len() != "function"@.len());
    assert("name"@.len() != "arguments"@.len());
}

/// The fields of the delta for a text of the local CLI are what the agent reads
/// of it.
proof fn lemma_content_delta_fields(text: Seq<char>)
    ensures
        token_of(crate::local_cli::content_delta(text)) == Some(text),
        pieces_of(crate::local_cli::content_delta(text)).len() == 0,
{
    reveal_strlit("content");
    reveal_strlit("tool_calls");
    assert("content"@.len() != "tool_calls"@.len());
}

/// The deltas for the first `n` calls of an answer of the local CLI add up to
/// those calls.
proof fn lemma_local_calls(reply: ReplyView, calls: Seq<JsonView>, n: nat)
    requires
        reply.calls.len() == 0,
        n <= calls.len(),
        calls.len() <= usize::MAX,
        crate::local_cli::deltas_of_calls(calls, n) is Ok,
    ensures
        ({
            let deltas = crate::local_cli::deltas_of_calls(calls, n)->Ok_0;
            let end = absorbed_all(reply, deltas);
            &&& deltas.len() == n
            &&& end.content == reply.content
            &&& end.calls == Seq::new(n, |i: int| local_call(calls, i))
            &&& forall|i: int|
                0 <= i < n ==> (#[trigger] local_call(calls, i)).name.len() > 0 && json_from_str(
                    local_call(calls, i).arguments,
                ) is Ok
            &&& forall|i: int| 0 <= i < n ==> places_fit(#[trigger] deltas[i])
        }),
    decreases n,
{
    let deltas = crate::local_cli::deltas_of_calls(calls, n)->Ok_0;
    if n == 0 {
        assert(reply.calls =~= Seq::new(n, |i: int| local_call(calls, i)));
    } else {
        let m = (n - 1) as nat;
        lemma_local_calls(reply, calls, m);
        let before = crate::local_cli::deltas_of_calls(calls, m)->Ok_0;
        let call = calls[n - 1];
        let delta = deltas.last();
        assert(deltas.drop_last() =~= before);
        let name = call.get_text("name"@)->0;
        let args = call.get_text("arguments"@)->0;
        assert(delta == crate::local_cli::call_delta(m, name, args));
        lemma_call_delta_fields(m, name, args);
        let piece = pieces_of(delta)[0];
        let so_far = absorbed_all(reply, before);
        assert(pieces_of(delta).drop_last() =~= Seq::empty());
        assert(pieces_of(delta).last() == piece);
        reveal_with_fuel(with_pieces, 2);
        let full = filled_up(so_far.calls, n);
        assert(full =~= so_far.calls.push(no_call()));
        assert(no_call().arguments + args =~= args);
        assert(extended(no_call(), piece) == local_call(calls, m as int));
        assert(with_piece(so_far.calls, piece) =~= Seq::new(n, |i: int| local_call(calls, i)));
        assert forall|i: int| 0 <= i < n implies places_fit(#[trigger] deltas[i]) by {
            if i < m {
                assert(deltas[i] == before[i]);
            }
        }
    }
}

/// Deltas absorbed after others are absorbed in turn.
proof fn lemma_absorbed_concat(reply: ReplyView, a: Seq<JsonView>, b: Seq<JsonView>)
    ensures
        absorbed_all(reply, a + b) == absorbed_all(absorbed_all(reply, a), b),
    decreases b.len(),
{
    if b.len() == 0 {
        assert(a + b =~= a);
    } else {
        assert((a + b).drop_last() =~= a + b.drop_last());
        lemma_absorbed_concat(reply, a, b.drop_last());
    }
}

/// What an answer of the local CLI says is what the agent understands of the
/// deltas made of it: the same text, and one call for each of its calls, in
/// order, with the same name and the same arguments. None of the calls is
/// dropped, and the arguments of each are JSON.
pub proof fn law_local_answers_are_understood(answer: JsonView, deltas: Seq<JsonView>)
    requires
        crate::local_cli::answer_deltas(answer) == Ok::<Seq<JsonView>, Seq<char>>(deltas),
        answer.get("tool_calls"@)->0.items()->0.len() <= usize::MAX,
    ensures
        ({
            let calls = answer.get("tool_calls"@)->0.items()->0;
            let reply = absorbed_all(no_reply(), deltas);
            &&& Some(reply.content) == answer.get_text("text"@)
            &&& reply.calls == Seq::new(calls.len(), |i: int| local_call(calls, i))
            &&& named(reply.calls) == reply.calls
            &&& forall|i: int|
                0 <= i < reply.calls.len() ==> json_from_str(
                    (#[trigger] reply.calls[i]).arguments,
                ) is Ok
            &&& forall|i: int| 0 <= i < deltas.len() ==> places_fit(#[trigger] deltas[i])
        }),
{
    let text = answer.get_text("text"@)->0;
    let calls = answer.get("tool_calls"@)->0.items()->0;
    let rest = crate::local_cli::deltas_of_calls(calls, calls.len())->Ok_0;
    let first = if text.len() > 0 {
        seq![crate::local_cli::content_delta(text)]
    } else {
        Seq::empty()
    };
    assert(deltas =~= first + rest);
    lemma_absorbed_concat(no_reply(), first, rest);
    let start = absorbed_all(no_reply(), first);
    assert(start.content == text && start.calls.len() == 0) by {
        reveal_with_fuel(absorbed_all, 2);
        if text.len() > 0 {
            lemma_content_delta_fields(text);
            assert(first.drop_last() =~= Seq::empty());
            assert(Seq::<char>::empty() + text =~= text);
        } else {
            assert(text =~= Seq::empty());
        }
    }
    lemma_local_calls(start, calls, calls.len());
    let reply = absorbed_all(no_reply(), deltas);
    assert forall|i: int| 0 <= i < reply.calls.len() implies (#[trigger] reply.calls[i]).name.len()
        > 0 && json_from_str(reply.calls[i].arguments) is Ok by {
        assert(reply.calls[i] == local_call(calls, i));
    }
    lemma_all_named(reply.calls);
    assert forall|i: int| 0 <= i < deltas.len() implies places_fit(#[trigger] deltas[i]) by {
        if i < first.len() {
            lemma_content_delta_fields(text);
        } else {
            assert(deltas[i] == rest[i - first.len()]);
        }
    }
}

/// Where every call has a name, none is dropped.
proof fn lemma_all_named(calls: Seq<PartialView>)
    requires
        forall|i: int| 0 <= i < calls.len() ==> (#[trigger] calls[i]).name.len() > 0,
    ensures
        named(calls) == calls,
    decreases calls.len(),
{
    if calls.len() > 0 {
        assert(calls.last() == calls[calls.len() - 1]);
        assert forall|i: int| 0 <= i < calls.drop_last().len() implies (
        #[trigger] calls.drop_last()[i]).name.len() > 0 by {
            assert(calls.drop_last()[i] == calls[i]);
        }
        lemma_all_named(calls.drop_last());
        assert(named(calls) =~= calls);
    } else {
        assert(named(calls) =~= calls);
    }
}

/// A delta brings what its first choice holds: the text under `content`, and the
/// pieces of calls under `tool_calls`. Without a first choice that has a change
/// it brings nothing.
pub proof fn law_a_delta_brings_what_its_first_choice_holds(
    delta: JsonView,
    text: Seq<char>,
    pieces: Seq<JsonView>,
)
    ensures
        (delta.get("choices"@) matches Some(choices) && choices.at(0) matches Some(choice)
            && choice.get("delta"@) matches Some(change) && {
            &&& token_of(delta) == Some(text) <==> change.get("content"@) == Some(
                JsonView::Text(text),
            )
            &&& token_of(delta) is None <==> !(change.get("content"@) matches Some(
                JsonView::Text(_),
            ))
            &&& change.get("tool_calls"@) == Some(JsonView::Array(pieces)) ==> pieces_of(delta)
                == pieces
            &&& !(change.get("tool_calls"@) matches Some(JsonView::Array(_))) ==> pieces_of(
                delta,
            ).len() == 0
        }) || {
            &&& !(delta.get("choices"@) matches Some(choices) && choices.at(0) matches Some(choice)
                && choice.get("delta"@) is Some)
            &&& token_of(delta) is None
            &&& pieces_of(delta).len() == 0
        },
{
}

/// A piece belongs to the call at its index; without an index, to the first.
pub proof fn law_a_piece_belongs_to_its_index(piece: JsonView, u: u64)
    ensures
        piece.get("index"@) == Some(JsonView::Unsigned(u)) && u <= usize::MAX ==> place_of(piece)
            == u,
        !(piece.get("index"@) matches Some(JsonView::Unsigned(_))) ==> place_of(piece) == 0,
{
}

/// The pieces of calls that some deltas bring, in the order in which they come.
pub open spec fn all_pieces(deltas: Seq<JsonView>) -> Seq<JsonView>
    decreases deltas.len(),
{
    if deltas.len() == 0 {
        Seq::empty()
    } else {
        all_pieces(deltas.drop_last()) + pieces_of(deltas.last())
    }
}

/// The strings under `arguments` of the pieces at place `k`, one after the other.
pub open spec fn arguments_for(pieces: Seq<JsonView>, k: int) -> Seq<char>
    decreases pieces.len(),
{
    if pieces.len() == 0 {
        Seq::empty()
    } else {
        let before = arguments_for(pieces.drop_last(), k);
        match pieces.last().get("function"@) {
            Some(f) if place_of(pieces.last()) == k && f.get_text("arguments"@) is Some => before
                + f.get_text("arguments"@)->0,
            _ => before,
        }
    }
}

/// The last name that is not empty among the pieces at place `k`; empty where
/// there is none.
pub open spec fn name_for(pieces: Seq<JsonView>, k: int) -> Seq<char>
    decreases pieces.len(),
{
    if pieces.len() == 0 {
        Seq::empty()
    } else {
        match pieces.last().get("function"@) {
            Some(f) if place_of(pieces.last()) == k && f.get_text("name"@) is Some && f.get_text(
                "name"@,
            )->0.len() > 0 => f.get_text("name"@)->0,
            _ => name_for(pieces.drop_last(), k),
        }
    }
}

/// The last id among the pieces at place `k`.
pub open spec fn id_for(pieces: Seq<JsonView>, k: int) -> Option<Seq<char>>
    decreases pieces.len(),
{
    if pieces.len() == 0 {
        None
    } else if place_of(pieces.last()) == k && pieces.last().get_text("id"@) is Some {
        pieces.last().get_text("id"@)
    } else {
        id_for(pieces.drop_last(), k)
    }
}

/// Whether some piece has the place `k` or a later one.
pub open spec fn reaches(pieces: Seq<JsonView>, k: int) -> bool {
    exists|j: int| 0 <= j < pieces.len() && place_of(#[trigger] pieces[j]) >= k
}

/// Pieces added after others are added in turn.
proof fn lemma_pieces_concat(calls: Seq<PartialView>, a: Seq<JsonView>, b: Seq<JsonView>)
    ensures
        with_pieces(calls, a + b) == with_pieces(with_pieces(calls, a), b),
    decreases b.len(),
{
    if b.len() == 0 {
        assert(a + b =~= a);
    } else {
        assert((a + b).drop_last() =~= a + b.drop_last());
        assert((a + b).last() == b.last());
        lemma_pieces_concat(calls, a, b.drop_last());
    }
}

/// The calls of a reply are those of all its pieces.
proof fn lemma_calls_of_all_pieces(deltas: Seq<JsonView>)
    ensures
        absorbed_all(no_reply(), deltas).calls == with_pieces(Seq::empty(), all_pieces(deltas)),
    decreases deltas.len(),
{
    if deltas.len() > 0 {
        lemma_calls_of_all_pieces(deltas.drop_last());
        lemma_pieces_concat(
            Seq::empty(),
            all_pieces(deltas.drop_last()),
            pieces_of(deltas.last()),
        );
    }
}

/// What the pieces make of the call at place `k`.
proof fn lemma_call_of_pieces(pieces: Seq<JsonView>, k: int)
    requires
        0 <= k,
    ensures
        ({
            let calls = with_pieces(Seq::empty(), pieces);
            &&& k < calls.len() <==> reaches(pieces, k)
            &&& k < calls.len() ==> calls[k] == (PartialView {
                id: id_for(pieces, k),
                name: name_for(pieces, k),
                arguments: arguments_for(pieces, k),
            })
            &&& k >= calls.len() ==> id_for(pieces, k) is None && name_for(pieces, k).len() == 0
                && arguments_for(pieces, k).len() == 0
        }),
    decreases pieces.len(),
{
    if pieces.len() > 0 {
        let before = pieces.drop_last();
        let piece = pieces.last();
        let at = place_of(piece) as int;
        lemma_call_of_pieces(before, k);
        let old_calls = with_pieces(Seq::empty(), before);
        let calls = with_pieces(Seq::empty(), pieces);
        assert(calls == with_piece(old_calls, piece));
        let full = filled_up(old_calls, (at + 1) as nat);
        assert(calls.len() == full.len());
        if reaches(before, k) {
            let j = choose|j: int| 0 <= j < before.len() && place_of(#[trigger] before[j]) >= k;
            assert(pieces[j] == before[j]);
        }
        if at >= k {
            assert(place_of(pieces[pieces.len() - 1]) >= k);
        }
        if reaches(pieces, k) && !reaches(before, k) {
            let j = choose|j: int| 0 <= j < pieces.len() && place_of(#[trigger] pieces[j]) >= k;
            if j < before.len() {
                assert(before[j] == pieces[j]);
            }
        }
        if k < calls.len() {
            if k >= old_calls.len() {
                assert(full[k] == no_call());
                assert(id_for(before, k) is None);
                assert(name_for(before, k) =~= Seq::empty());
                assert(arguments_for(before, k) =~= Seq::empty());
            } else {
                assert(full[k] == old_calls[k]);
            }
            if k == at {
                assert(calls[k] == extended(full[k], piece));
            }
        }
    }
}

/// Over any deltas, the call at place `k` is made of all the pieces for that
/// place, however many there are: its arguments are theirs, put together
/// character for character in the order in which they came; its id is the last
/// one given, and its name the last one that is not empty. There is such a call
/// where some piece has that place or a later one.
pub proof fn law_pieces_add_up(deltas: Seq<JsonView>, k: int)
    requires
        0 <= k,
    ensures
        ({
            let calls = absorbed_all(no_reply(), deltas).calls;
            let pieces = all_pieces(deltas);
            &&& k < calls.len() <==> reaches(pieces, k)
            &&& k < calls.len() ==> calls[k].arguments == arguments_for(pieces, k)
            &&& k < calls.len() ==> calls[k].id == id_for(pieces, k)
            &&& k < calls.len() ==> calls[k].name == name_for(pieces, k)
        }),
{
    lemma_calls_of_all_pieces(deltas);
    lemma_call_of_pieces(all_pieces(deltas), k);
}

/// A reply that is absorbed further keeps what it has: its text is only ever
/// appended to, by just the text of the delta, and no call is lost.
pub proof fn law_a_delta_only_adds(reply: ReplyView, delta: JsonView)
    ensures
        token_of(delta) matches Some(t) ==> absorbed(reply, delta).content == reply.content + t,
        token_of(delta) is None ==> absorbed(reply, delta).content == reply.content,
        absorbed(reply, delta).calls.len() >= reply.calls.len(),
        pieces_of(delta).len() == 0 ==> absorbed(reply, delta).calls == reply.calls,
{
    lemma_pieces_only_add(reply.calls, pieces_of(delta));
}

/// Pieces do not make calls fewer.
proof fn lemma_pieces_only_add(calls: Seq<PartialView>, pieces: Seq<JsonView>)
    ensures
        with_pieces(calls, pieces).len() >= calls.len(),
    decreases pieces.len(),
{
    if pieces.len() > 0 {
        lemma_pieces_only_add(calls, pieces.drop_last());
    }
}

/// Of the calls of a reply those with a name are kept, all of them and in order.
pub proof fn law_calls_with_a_name_are_kept(calls: Seq<PartialView>)
    ensures
        named(calls) == calls.filter(|c: PartialView| c.name.len() > 0),
    decreases calls.len(),
{
    reveal(Seq::filter);
    if calls.len() > 0 {
        law_calls_with_a_name_are_kept(calls.drop_last());
    }
}

/// A call that is complete has the name it was given and, where it was given
/// one, its id; one without gets `call_` and a random UUID. Its arguments are
/// what the parser reads of their text, or null where that is no JSON.
pub proof fn law_a_call_is_completed_from_its_parts(
    calls: Seq<CallView>,
    from: Seq<PartialView>,
    i: int,
)
    requires
        are_finished(calls, from),
        0 <= i < from.len(),
    ensures
        calls.len() == from.len(),
        calls[i].name == from[i].name,
        from[i].id matches Some(id) ==> calls[i].id == id,
        from[i].id is None ==> exists|fresh: Seq<char>| #[trigger]
            is_random_uuid(fresh) && calls[i].id == "call_"@ + fresh,
        json_from_str(from[i].arguments) matches Ok(v) ==> calls[i].arguments == v,
        json_from_str(from[i].arguments) is Err ==> calls[i].arguments == JsonView::Null,
{
    assert(is_finished(calls[i], from[i]));
}

/// Calls and replies are read as they are.
pub proof fn law_replies_are_read_as_they_are(reply: Reply, calls: Seq<ToolCall>, i: int)
    ensures
        reply@.content == reply.content@,
        reply@.calls.len() == reply.calls@.len(),
        0 <= i < reply.calls@.len() ==> {
            let call = reply@.calls[i];
            &&& call.id == option_string(reply.calls@[i].id)
            &&& call.name == reply.calls@[i].name@
            &&& call.arguments == reply.calls@[i].arguments@
            &&& call == reply.calls@[i]@
        },
        call_views(calls).len() == calls.len(),
        0 <= i < calls.len() ==> {
            let call = call_views(calls)[i];
            &&& call.id == calls[i].id@
            &&& call.name == calls[i].name@
            &&& call.arguments == calls[i].arguments@
            &&& call == calls[i]@
        },
{
}

/// Deltas are absorbed one after the other, beginning with nothing.
pub proof fn law_deltas_are_absorbed_in_turn(
    reply: ReplyView,
    deltas: Seq<JsonView>,
    delta: JsonView,
)
    ensures
        absorbed_all(reply, Seq::empty()) == reply,
        absorbed_all(reply, deltas.push(delta)) == absorbed(absorbed_all(reply, deltas), delta),
        no_reply().content.len() == 0,
        no_reply().calls.len() == 0,
{
    assert(deltas.push(delta).drop_last() =~= deltas);
}

} // verus!
