//! One turn of the agent: rounds of asking the model, and of running the tools
//! that it calls, until it calls none.
//!
//! The turn itself does nothing. It says what is to be done next and what is to
//! be shown, and is told what came of it.

use vstd::prelude::*;

use crate::ids::{is_random_uuid, new_uuid};
use crate::json::{array_view, copy, json_text, print, put, Json, JsonView};
use crate::reply::{
    absorbed, are_finished, call_views, named, no_reply, places_fit, token_of, CallView, Reply,
    ReplyView, ToolCall,
};
use crate::tools::{is_gated, needs_approval, text_outcome};

verus! {

/// How many times the model is asked in one turn, at most.
pub const MAX_ITERS: u32 = 25;

/// What the model is told of its part.
pub const SYSTEM_PROMPT: &'static str = r#"You are an AI coding assistant inside MuseDesk, a Windows desktop app.
You help the user with software tasks: reading/writing code, running commands, debugging.

You have tools: read_file, write_file, list_dir, shell (Windows PowerShell), wsl (WSL2 Ubuntu).

WSL bridge rules — every `wsl` call is a FRESH login shell, like one-shot SSH:
- Re-`cd` to the working directory and re-establish ALL context in EVERY call.
- Prefer `conda run -n <env> <cmd>` over `conda activate`.
- Use `bash -lc`, never `bash -ic` (interactive shells pollute output).
- Native WSL paths (~/project) are fast; /mnt/c paths are slower — pick one side as source of truth.
- State does NOT persist between calls.

Be concise. Explain what you're about to do before doing anything destructive.
Prefer small, verifiable steps."#;

/// What the model is told of a call that was denied.
pub const DENIAL: &'static str = "The user denied this action. Do not retry it; ask how to proceed.";

/// The message that a turn has taken too many rounds.
pub const LIMIT_MESSAGE: &'static str = "agent loop hit iteration limit — task may be too long";

/// Where a turn stands.
#[derive(Debug, PartialEq, Eq, Structural, Clone, Copy)]
pub enum Phase {
    /// The model's reply is coming in.
    Streaming,
    /// A person decides on the current call.
    Deciding,
    /// The current call runs.
    Running,
    /// The turn is over.
    Ended,
}

/// What is to be done next.
#[derive(Debug)]
pub enum Request {
    /// Ask the model, with the messages so far.
    Chat,
    /// Ask a person to approve the current call.
    Approval,
    /// Run the current call.
    Execute,
    /// The turn has ended well.
    Done,
    /// The turn has failed.
    Failed(String),
}

/// Something to be shown: the name of an event and what it carries.
#[derive(Debug)]
pub struct Emission {
    pub event: &'static str,
    pub payload: Json,
}

/// What is to be shown, in order, and what is to be done after that.
#[derive(Debug)]
pub struct Step {
    pub emissions: Vec<Emission>,
    pub request: Request,
}

/// What is to be done next, as text.
pub enum RequestView {
    Chat,
    Approval,
    Execute,
    Done,
    Failed(Seq<char>),
}

/// Something to be shown, as text and JSON.
pub struct EmissionView {
    pub event: Seq<char>,
    pub payload: JsonView,
}

/// What is to be shown and done, as text and JSON.
pub struct StepView {
    pub emissions: Seq<EmissionView>,
    pub request: RequestView,
}

impl View for Request {
    type V = RequestView;

    open spec fn view(&self) -> RequestView {
        match self {
            Request::Chat => RequestView::Chat,
            Request::Approval => RequestView::Approval,
            Request::Execute => RequestView::Execute,
            Request::Done => RequestView::Done,
            Request::Failed(e) => RequestView::Failed(e@),
        }
    }
}

impl View for Emission {
    type V = EmissionView;

    open spec fn view(&self) -> EmissionView {
        EmissionView { event: self.event@, payload: self.payload@ }
    }
}

/// What some emissions are.
pub open spec fn emission_views(emissions: Seq<Emission>) -> Seq<EmissionView> {
    emissions.map_values(|e: Emission| e@)
}

impl View for Step {
    type V = StepView;

    open spec fn view(&self) -> StepView {
        StepView { emissions: emission_views(self.emissions@), request: self.request@ }
    }
}

/// A turn of the agent.
#[derive(Debug)]
pub struct Turn {
    state: State,
}

/// What a turn holds.
#[derive(Debug)]
struct State {
    messages: Vec<Json>,
    rounds: u32,
    reply: Reply,
    calls: Vec<ToolCall>,
    next: usize,
    phase: Phase,
}

/// A turn of the agent: the messages so far, how often the model has been asked,
/// the reply that is coming in, the calls of the last reply and which of them is
/// the current one, and where the turn stands.
pub struct TurnView {
    pub messages: Seq<JsonView>,
    pub rounds: nat,
    pub reply: ReplyView,
    pub calls: Seq<CallView>,
    pub next: nat,
    pub phase: Phase,
}

impl View for Turn {
    type V = TurnView;

    closed spec fn view(&self) -> TurnView {
        self.state@
    }
}

impl View for State {
    type V = TurnView;

    closed spec fn view(&self) -> TurnView {
        TurnView {
            messages: array_view(self.messages@),
            rounds: self.rounds as nat,
            reply: self.reply@,
            calls: call_views(self.calls@),
            next: self.next as nat,
            phase: self.phase,
        }
    }
}

/// A message with a role and a content.
pub open spec fn plain_message(role: Seq<char>, content: Seq<char>) -> JsonView {
    JsonView::Object(
        map!["role"@ => JsonView::Text(role), "content"@ => JsonView::Text(content)],
    )
}

/// A call as the assistant's message records it.
pub open spec fn recorded_call(call: CallView) -> JsonView {
    JsonView::Object(
        map![
            "id"@ => JsonView::Text(call.id),
            "type"@ => JsonView::Text("function"@),
            "function"@ => JsonView::Object(
                map![
                    "name"@ => JsonView::Text(call.name),
                    "arguments"@ => JsonView::Text(json_text(call.arguments)),
                ],
            ),
        ],
    )
}

/// The message of the assistant: what it said and the calls it made.
pub open spec fn assistant_message(content: Seq<char>, calls: Seq<CallView>) -> JsonView {
    JsonView::Object(
        map![
            "role"@ => JsonView::Text("assistant"@),
            "content"@ => JsonView::Text(content),
            "tool_calls"@ => JsonView::Array(calls.map_values(|c: CallView| recorded_call(c))),
        ],
    )
}

/// The message that answers a call.
pub open spec fn tool_message(call_id: Seq<char>, content: Seq<char>) -> JsonView {
    JsonView::Object(
        map![
            "role"@ => JsonView::Text("tool"@),
            "tool_call_id"@ => JsonView::Text(call_id),
            "content"@ => JsonView::Text(content),
        ],
    )
}

/// What is shown of a call that is about to be made.
pub open spec fn call_shown(call: CallView) -> EmissionView {
    EmissionView {
        event: "tool-call"@,
        payload: JsonView::Object(
            map![
                "id"@ => JsonView::Text(call.id),
                "name"@ => JsonView::Text(call.name),
                "arguments"@ => call.arguments,
            ],
        ),
    }
}

/// What is shown of what came of a call.
pub open spec fn result_shown(call_id: Seq<char>, result: Seq<char>) -> EmissionView {
    EmissionView {
        event: "tool-result"@,
        payload: JsonView::Object(
            map!["id"@ => JsonView::Text(call_id), "result"@ => JsonView::Text(result)],
        ),
    }
}

/// What is shown of a text that a delta brings.
pub open spec fn token_shown(token: Seq<char>) -> EmissionView {
    EmissionView { event: "token"@, payload: JsonView::Text(token) }
}

/// What is shown of a delta: the text that it brings, where it brings some.
pub open spec fn delta_shown(delta: JsonView) -> Option<EmissionView> {
    match token_of(delta) {
        Some(t) => Some(token_shown(t)),
        None => None,
    }
}

/// What a person who decides on a call is shown.
pub open spec fn approval_shown(approval_id: Seq<char>, call: CallView) -> EmissionView {
    EmissionView {
        event: "approval-requested"@,
        payload: JsonView::Object(
            map![
                "id"@ => JsonView::Text(approval_id),
                "tool"@ => JsonView::Text(call.name),
                "arguments"@ => call.arguments,
            ],
        ),
    }
}

/// What is shown of a turn that has failed.
pub open spec fn error_shown(e: Seq<char>) -> EmissionView {
    EmissionView { event: "agent-error"@, payload: JsonView::Text(e) }
}

/// What an optional emission is.
pub open spec fn option_emission(e: Option<Emission>) -> Option<EmissionView> {
    match e {
        Some(e) => Some(e@),
        None => None,
    }
}

/// What the model is told of a call that has run.
pub open spec fn result_text(result: Result<Seq<char>, Seq<char>>) -> Seq<char> {
    match result {
        Ok(s) => s,
        Err(e) => "tool error: "@ + e,
    }
}

/// The messages that a turn begins with.
pub open spec fn opening(user_text: Seq<char>) -> Seq<JsonView> {
    seq![plain_message("system"@, SYSTEM_PROMPT@), plain_message("user"@, user_text)]
}

/// A turn at its beginning: the model is to be asked.
pub open spec fn started(user_text: Seq<char>) -> TurnView {
    TurnView {
        messages: opening(user_text),
        rounds: 1,
        reply: no_reply(),
        calls: Seq::empty(),
        next: 0,
        phase: Phase::Streaming,
    }
}

/// A turn and what it asks for.
pub struct Progress {
    pub turn: TurnView,
    pub step: StepView,
}

/// How a turn goes on with the call at `next`: a call that is gated waits for
/// approval, any other runs. After the last call the model is asked again,
/// unless it has been asked too often.
pub open spec fn go_on(turn: TurnView, shown: Seq<EmissionView>) -> Progress {
    if turn.next < turn.calls.len() {
        let call = turn.calls[turn.next as int];
        let gated = is_gated(call.name);
        Progress {
            turn: TurnView {
                phase: if gated {
                    Phase::Deciding
                } else {
                    Phase::Running
                },
                ..turn
            },
            step: StepView {
                emissions: shown.push(call_shown(call)),
                request: if gated {
                    RequestView::Approval
                } else {
                    RequestView::Execute
                },
            },
        }
    } else if turn.rounds < MAX_ITERS {
        Progress {
            turn: TurnView {
                rounds: turn.rounds + 1,
                reply: no_reply(),
                calls: Seq::empty(),
                next: 0,
                phase: Phase::Streaming,
                ..turn
            },
            step: StepView { emissions: shown, request: RequestView::Chat },
        }
    } else {
        Progress {
            turn: TurnView { phase: Phase::Ended, ..turn },
            step: StepView { emissions: shown, request: RequestView::Failed(LIMIT_MESSAGE@) },
        }
    }
}

/// How a turn goes on when the reply is complete and makes `calls`. A reply
/// without calls ends the turn.
pub open spec fn replied(turn: TurnView, calls: Seq<CallView>) -> Progress {
    let content = turn.reply.content;
    let recorded = TurnView {
        messages: turn.messages.push(assistant_message(content, calls)),
        reply: no_reply(),
        calls,
        next: 0,
        ..turn
    };
    if calls.len() == 0 {
        Progress {
            turn: TurnView { phase: Phase::Ended, ..recorded },
            step: StepView {
                emissions: seq![
                    EmissionView { event: "done"@, payload: JsonView::Text(content) },
                ],
                request: RequestView::Done,
            },
        }
    } else {
        go_on(recorded, Seq::empty())
    }
}

/// How a turn goes on when the stream of the reply has failed: it fails for the
/// same reason, and what had come of the reply is not recorded.
pub open spec fn broken(turn: TurnView, e: Seq<char>) -> Progress {
    Progress {
        turn: TurnView { phase: Phase::Ended, ..turn },
        step: StepView { emissions: Seq::empty(), request: RequestView::Failed(e) },
    }
}

/// How a turn goes on when the current call has been answered: `result` is
/// shown, and the model will be told `told`.
pub open spec fn answered(turn: TurnView, result: Seq<char>, told: Seq<char>) -> Progress {
    let call = turn.calls[turn.next as int];
    go_on(
        TurnView {
            messages: turn.messages.push(tool_message(call.id, told)),
            next: turn.next + 1,
            ..turn
        },
        seq![result_shown(call.id, result)],
    )
}

/// How a turn goes on when a person has decided on the current call.
pub open spec fn decided(turn: TurnView, approved: bool) -> Progress {
    if approved {
        Progress {
            turn: TurnView { phase: Phase::Running, ..turn },
            step: StepView { emissions: Seq::empty(), request: RequestView::Execute },
        }
    } else {
        answered(turn, "denied by user"@, DENIAL@)
    }
}

/// How a turn goes on when the current call has run.
pub open spec fn ran(turn: TurnView, result: Result<Seq<char>, Seq<char>>) -> Progress {
    answered(turn, result_text(result), result_text(result))
}

/// Whether a turn is one that can come about: the model has been asked once at
/// least and not too often, there is a current call while one is decided on or
/// runs, and one that is decided on is gated.
pub open spec fn is_sound(turn: TurnView) -> bool {
    &&& 1 <= turn.rounds <= MAX_ITERS
    &&& turn.next <= turn.calls.len()
    &&& turn.phase is Deciding || turn.phase is Running ==> turn.next < turn.calls.len()
    &&& turn.phase is Deciding ==> is_gated(turn.calls[turn.next as int].name)
}

/// A message with a role and a content.
fn make_message(role: &str, content: &str) -> (r: Json)
    ensures
        r@ == plain_message(role@, content@),
{
    let mut fields: Vec<(String, Json)> = Vec::new();
    put(&mut fields, "role", Json::text(role));
    put(&mut fields, "content", Json::text(content));
    Json::Object(fields)
}

/// A call as the assistant's message records it.
fn record_call(call: &ToolCall) -> (r: Json)
    ensures
        r@ == recorded_call(call@),
{
    let mut function: Vec<(String, Json)> = Vec::new();
    put(&mut function, "name", Json::text(call.name.as_str()));
    put(&mut function, "arguments", Json::Text(print(&call.arguments)));
    let mut fields: Vec<(String, Json)> = Vec::new();
    put(&mut fields, "id", Json::text(call.id.as_str()));
    put(&mut fields, "type", Json::text("function"));
    put(&mut fields, "function", Json::Object(function));
    Json::Object(fields)
}

/// The message of the assistant.
fn make_assistant_message(content: &str, calls: &Vec<ToolCall>) -> (r: Json)
    ensures
        r@ == assistant_message(content@, call_views(calls@)),
{
    let mut recorded: Vec<Json> = Vec::new();
    let mut i: usize = 0;
    while i < calls.len()
        invariant
            i <= calls@.len(),
            recorded@.len() == i,
            forall|k: int| 0 <= k < i ==> (#[trigger] recorded@[k])@ == recorded_call(calls@[k]@),
        decreases calls@.len() - i,
    {
        recorded.push(record_call(&calls[i]));
        i = i + 1;
    }
    assert(array_view(recorded@) =~= call_views(calls@).map_values(
        |c: CallView| recorded_call(c),
    ));
    let mut fields: Vec<(String, Json)> = Vec::new();
    put(&mut fields, "role", Json::text("assistant"));
    put(&mut fields, "content", Json::text(content));
    put(&mut fields, "tool_calls", Json::Array(recorded));
    Json::Object(fields)
}

/// The message that answers a call.
fn make_tool_message(call_id: &str, content: &str) -> (r: Json)
    ensures
        r@ == tool_message(call_id@, content@),
{
    let mut fields: Vec<(String, Json)> = Vec::new();
    put(&mut fields, "role", Json::text("tool"));
    put(&mut fields, "tool_call_id", Json::text(call_id));
    put(&mut fields, "content", Json::text(content));
    Json::Object(fields)
}

/// What is shown of a call that is about to be made.
fn show_call(call: &ToolCall) -> (r: Emission)
    ensures
        r@ == call_shown(call@),
{
    let mut fields: Vec<(String, Json)> = Vec::new();
    put(&mut fields, "id", Json::text(call.id.as_str()));
    put(&mut fields, "name", Json::text(call.name.as_str()));
    put(&mut fields, "arguments", copy(&call.arguments));
    Emission { event: "tool-call", payload: Json::Object(fields) }
}

/// What is shown of what came of a call.
fn show_result(call_id: &str, result: &str) -> (r: Emission)
    ensures
        r@ == result_shown(call_id@, result@),
{
    let mut fields: Vec<(String, Json)> = Vec::new();
    put(&mut fields, "id", Json::text(call_id));
    put(&mut fields, "result", Json::text(result));
    Emission { event: "tool-result", payload: Json::Object(fields) }
}

/// What is shown of a turn that has failed.
pub fn show_error(e: &str) -> (r: Emission)
    ensures
        r@ == error_shown(e@),
{
    Emission { event: "agent-error", payload: Json::text(e) }
}

impl State {
    /// The state at the beginning of a turn.
    fn new(user_text: &str) -> (r: State)
        ensures
            r@ == started(user_text@),
    {
        let mut messages: Vec<Json> = Vec::new();
        messages.push(make_message("system", SYSTEM_PROMPT));
        messages.push(make_message("user", user_text));
        assert(array_view(messages@) =~= opening(user_text@));
        let calls: Vec<ToolCall> = Vec::new();
        assert(call_views(calls@) =~= Seq::empty());
        State { messages, rounds: 1, reply: Reply::new(), calls, next: 0, phase: Phase::Streaming }
    }

    /// A state of which nothing is kept.
    fn empty() -> (r: State)
        ensures
            is_sound(r@),
    {
        State {
            messages: Vec::new(),
            rounds: 1,
            reply: Reply::new(),
            calls: Vec::new(),
            next: 0,
            phase: Phase::Ended,
        }
    }

    /// Goes on with the call at `next`, where `shown` is to be shown first.
    fn advance(&mut self, shown: Vec<Emission>) -> (r: Step)
        ensures
            (Progress { turn: final(self)@, step: r@ }) == go_on(
                old(self)@,
                emission_views(shown@),
            ),
    {
        if self.next < self.calls.len() {
            let mut emissions = shown;
            emissions.push(show_call(&self.calls[self.next]));
            assert(emission_views(emissions@) =~= emission_views(shown@).push(
                call_shown(self.calls@[self.next as int]@),
            ));
            if needs_approval(self.calls[self.next].name.as_str()) {
                self.phase = Phase::Deciding;
                Step { emissions, request: Request::Approval }
            } else {
                self.phase = Phase::Running;
                Step { emissions, request: Request::Execute }
            }
        } else if self.rounds < MAX_ITERS {
            self.rounds = self.rounds + 1;
            self.reply = Reply::new();
            self.calls = Vec::new();
            self.next = 0;
            self.phase = Phase::Streaming;
            assert(call_views(self.calls@) =~= Seq::empty());
            Step { emissions: shown, request: Request::Chat }
        } else {
            self.phase = Phase::Ended;
            Step { emissions: shown, request: Request::Failed(LIMIT_MESSAGE.to_owned()) }
        }
    }

    /// Records the reply, which is complete, and goes on with its calls.
    fn end_reply(&mut self) -> (r: Step)
        requires
            is_sound(old(self)@),
            old(self)@.phase is Streaming,
        ensures
            exists|calls: Seq<CallView>|
                {
                    &&& #[trigger] are_finished(calls, named(old(self)@.reply.calls))
                    &&& (Progress { turn: final(self)@, step: r@ }) == replied(old(self)@, calls)
                },
            is_sound(final(self)@),
    {
        let mut reply = Reply::new();
        std::mem::swap(&mut reply, &mut self.reply);
        let (content, calls) = reply.finish();
        self.reply.content = content;
        proof {
            let views = call_views(calls@);
            assert(are_finished(views, named(old(self)@.reply.calls)));
            assert(replied(self@, views) == replied(old(self)@, views));
        }
        self.take_calls(calls)
    }

    /// Records the text of the reply with these calls, and goes on with them.
    fn take_calls(&mut self, calls: Vec<ToolCall>) -> (r: Step)
        requires
            is_sound(old(self)@),
            old(self)@.phase is Streaming,
        ensures
            (Progress { turn: final(self)@, step: r@ }) == replied(old(self)@, call_views(calls@)),
            is_sound(final(self)@),
    {
        let mut reply = Reply::new();
        std::mem::swap(&mut reply, &mut self.reply);
        let ghost before = self.messages@;
        let message = make_assistant_message(reply.content.as_str(), &calls);
        self.messages.push(message);
        assert(array_view(self.messages@) =~= array_view(before).push(message@));
        self.calls = calls;
        self.next = 0;
        let mut shown: Vec<Emission> = Vec::new();
        if self.calls.len() == 0 {
            self.phase = Phase::Ended;
            shown.push(Emission { event: "done", payload: Json::Text(reply.content) });
            assert(emission_views(shown@) =~= seq![
                EmissionView { event: "done"@, payload: JsonView::Text(reply.content@) },
            ]);
            Step { emissions: shown, request: Request::Done }
        } else {
            assert(emission_views(shown@) =~= Seq::empty());
            self.advance(shown)
        }
    }

    /// Answers the current call: `result` is shown, and the model will be told
    /// `told`.
    fn answer(&mut self, result: &str, told: &str) -> (r: Step)
        requires
            is_sound(old(self)@),
            old(self)@.next < old(self)@.calls.len(),
        ensures
            (Progress { turn: final(self)@, step: r@ }) == answered(old(self)@, result@, told@),
            is_sound(final(self)@),
    {
        let mut shown: Vec<Emission> = Vec::new();
        let id = self.calls[self.next].id.clone();
        shown.push(show_result(id.as_str(), result));
        let ghost before = self.messages@;
        let message = make_tool_message(id.as_str(), told);
        self.messages.push(message);
        assert(array_view(self.messages@) =~= array_view(before).push(message@));
        assert(self.calls.len() == self.calls@.len());
        self.next = self.next + 1;
        assert(emission_views(shown@) =~= seq![
            result_shown(old(self)@.calls[old(self)@.next as int].id, result@),
        ]);
        self.advance(shown)
    }
}

impl Turn {
    #[verifier::type_invariant]
    spec fn can_come_about(self) -> bool {
        is_sound(self.state@)
    }

    /// Begins a turn with what the user said. The model is to be asked.
    pub fn new(user_text: &str) -> (r: Turn)
        ensures
            r@ == started(user_text@),
    {
        Turn { state: State::new(user_text) }
    }

    /// The messages so far.
    pub fn messages(&self) -> (r: &Vec<Json>)
        ensures
            array_view(r@) == self@.messages,
    {
        &self.state.messages
    }

    /// Where the turn stands.
    pub fn phase(&self) -> (r: Phase)
        ensures
            r == self@.phase,
    {
        self.state.phase
    }

    /// The current call. There is one while it is decided on or runs.
    pub fn current(&self) -> (r: Option<&ToolCall>)
        ensures
            r is Some <==> self@.next < self@.calls.len(),
            r matches Some(call) ==> call@ == self@.calls[self@.next as int],
            self@.phase is Deciding || self@.phase is Running ==> r is Some,
    {
        proof {
            use_type_invariant(self);
        }
        if self.state.next < self.state.calls.len() {
            Some(&self.state.calls[self.state.next])
        } else {
            None
        }
    }

    /// Takes a delta of the reply. Returns what is to be shown of it.
    pub fn on_delta(&mut self, delta: &Json) -> (r: Option<Emission>)
        requires
            old(self)@.phase is Streaming,
            places_fit(delta@),
        ensures
            final(self)@ == (TurnView {
                reply: absorbed(old(self)@.reply, delta@),
                ..old(self)@
            }),
            option_emission(r) == delta_shown(delta@),
    {
        proof {
            use_type_invariant(&*self);
        }
        let mut state = State::empty();
        std::mem::swap(&mut state, &mut self.state);
        let token = state.reply.absorb(delta);
        self.state = state;
        match token {
            Some(t) => Some(Emission { event: "token", payload: Json::Text(t) }),
            None => None,
        }
    }

    /// Takes the end of the stream: the reply is complete.
    pub fn on_stream_end(&mut self) -> (r: Step)
        requires
            old(self)@.phase is Streaming,
        ensures
            exists|calls: Seq<CallView>|
                {
                    &&& #[trigger] are_finished(calls, named(old(self)@.reply.calls))
                    &&& (Progress { turn: final(self)@, step: r@ }) == replied(old(self)@, calls)
                },
    {
        proof {
            use_type_invariant(&*self);
        }
        let mut state = State::empty();
        std::mem::swap(&mut state, &mut self.state);
        let step = state.end_reply();
        self.state = state;
        step
    }

    /// Takes the calls of the reply, which is complete.
    pub fn on_calls(&mut self, calls: Vec<ToolCall>) -> (r: Step)
        requires
            old(self)@.phase is Streaming,
        ensures
            (Progress { turn: final(self)@, step: r@ }) == replied(old(self)@, call_views(calls@)),
    {
        proof {
            use_type_invariant(&*self);
        }
        let mut state = State::empty();
        std::mem::swap(&mut state, &mut self.state);
        let step = state.take_calls(calls);
        self.state = state;
        step
    }

    /// Takes the failure of the stream: the turn fails for the same reason.
    pub fn on_stream_error(&mut self, e: String) -> (r: Step)
        requires
            old(self)@.phase is Streaming,
        ensures
            (Progress { turn: final(self)@, step: r@ }) == broken(old(self)@, e@),
    {
        proof {
            use_type_invariant(&*self);
        }
        self.state.phase = Phase::Ended;
        let emissions: Vec<Emission> = Vec::new();
        assert(emission_views(emissions@) =~= Seq::empty());
        Step { emissions, request: Request::Failed(e) }
    }

    /// What a person who decides on the current call is shown, under the id of
    /// the approval.
    pub fn show_approval(&self, approval_id: &str) -> (r: Emission)
        requires
            self@.phase is Deciding,
        ensures
            r@ == approval_shown(approval_id@, self@.calls[self@.next as int]),
    {
        proof {
            use_type_invariant(self);
        }
        let call = &self.state.calls[self.state.next];
        let mut fields: Vec<(String, Json)> = Vec::new();
        put(&mut fields, "id", Json::text(approval_id));
        put(&mut fields, "tool", Json::text(call.name.as_str()));
        put(&mut fields, "arguments", copy(&call.arguments));
        Emission { event: "approval-requested", payload: Json::Object(fields) }
    }

    /// The id of a new approval of the current call, which is a fresh UUID, and
    /// what the person who decides is shown.
    pub fn ask_approval(&self) -> (r: (String, Emission))
        requires
            self@.phase is Deciding,
        ensures
            is_random_uuid(r.0@),
            r.1@ == approval_shown(r.0@, self@.calls[self@.next as int]),
    {
        let id = new_uuid();
        let shown = self.show_approval(id.as_str());
        (id, shown)
    }

    /// Takes what a person has decided on the current call; where nobody answered,
    /// that counts as a denial. A call that is denied does not run; the model is
    /// told so.
    pub fn on_decision(&mut self, verdict: Option<bool>) -> (r: Step)
        requires
            old(self)@.phase is Deciding,
        ensures
            (Progress { turn: final(self)@, step: r@ }) == decided(
                old(self)@,
                verdict == Some(true),
            ),
    {
        proof {
            use_type_invariant(&*self);
        }
        let approved = match verdict {
            Some(approved) => approved,
            None => false,
        };
        if approved {
            self.state.phase = Phase::Running;
            let emissions: Vec<Emission> = Vec::new();
            assert(emission_views(emissions@) =~= Seq::empty());
            Step { emissions, request: Request::Execute }
        } else {
            let mut state = State::empty();
            std::mem::swap(&mut state, &mut self.state);
            let step = state.answer("denied by user", DENIAL);
            self.state = state;
            step
        }
    }

    /// Takes what came of the current call, which has run.
    pub fn on_result(&mut self, result: Result<String, String>) -> (r: Step)
        requires
            old(self)@.phase is Running,
        ensures
            (Progress { turn: final(self)@, step: r@ }) == ran(old(self)@, text_outcome(result)),
    {
        proof {
            use_type_invariant(&*self);
        }
        let text = match result {
            Ok(s) => s,
            Err(e) => {
                let mut t = "tool error: ".to_owned();
                t.append(e.as_str());
                t
            },
        };
        let mut state = State::empty();
        std::mem::swap(&mut state, &mut self.state);
        let step = state.answer(text.as_str(), text.as_str());
        self.state = state;
        step
    }
}

/// What a turn is told.
pub enum Input {
    /// A delta of the reply has come.
    Delta(JsonView),
    /// The reply is complete and makes these calls.
    Replied(Seq<CallView>),
    /// The stream of the reply has failed.
    Broken(Seq<char>),
    /// A person has approved the current call, or not.
    Decided(bool),
    /// The current call has run.
    Ran(Result<Seq<char>, Seq<char>>),
}

/// How a turn takes an input, where it is one that it waits for. A delta asks
/// for nothing.
pub open spec fn taken(turn: TurnView, input: Input) -> Option<(TurnView, Option<StepView>)> {
    match (turn.phase, input) {
        (Phase::Streaming, Input::Delta(delta)) => Some(
            (TurnView { reply: absorbed(turn.reply, delta), ..turn }, None),
        ),
        (Phase::Streaming, Input::Replied(calls)) => {
            let p = replied(turn, calls);
            Some((p.turn, Some(p.step)))
        },
        (Phase::Streaming, Input::Broken(e)) => {
            let p = broken(turn, e);
            Some((p.turn, Some(p.step)))
        },
        (Phase::Deciding, Input::Decided(approved)) => {
            let p = decided(turn, approved);
            Some((p.turn, Some(p.step)))
        },
        (Phase::Running, Input::Ran(result)) => {
            let p = ran(turn, result);
            Some((p.turn, Some(p.step)))
        },
        _ => None,
    }
}

/// Whether a turn, as it takes an input, asks for the current call to be run.
pub open spec fn asks_to_run(turn: TurnView, input: Input) -> bool {
    taken(turn, input) matches Some((_, Some(step))) && step.request is Execute
}

/// The turn that the inputs lead to, where each is one that it waits for.
pub open spec fn after_inputs(user_text: Seq<char>, inputs: Seq<Input>) -> Option<TurnView>
    decreases inputs.len(),
{
    if inputs.len() == 0 {
        Some(started(user_text))
    } else {
        match after_inputs(user_text, inputs.drop_last()) {
            Some(turn) => match taken(turn, inputs.last()) {
                Some((next, _)) => Some(next),
                None => None,
            },
            None => None,
        }
    }
}

/// How often the model is asked as the inputs come, the first time included.
pub open spec fn chats(user_text: Seq<char>, inputs: Seq<Input>) -> nat
    decreases inputs.len(),
{
    if inputs.len() == 0 {
        1
    } else {
        let before = chats(user_text, inputs.drop_last());
        match after_inputs(user_text, inputs.drop_last()) {
            Some(turn) => match taken(turn, inputs.last()) {
                Some((_, Some(step))) => if step.request is Chat {
                    before + 1
                } else {
                    before
                },
                _ => before,
            },
            None => before,
        }
    }
}

/// A turn that can come about stays one, whatever it is told.
pub proof fn law_turns_stay_sound(turn: TurnView, input: Input)
    requires
        is_sound(turn),
    ensures
        taken(turn, input) matches Some((next, _)) ==> is_sound(next),
{
}

/// The model is asked once for each round, and no more than the limit allows,
/// whatever it replies and whatever comes of its calls.
pub proof fn law_the_model_is_asked_a_bounded_number_of_times(
    user_text: Seq<char>,
    inputs: Seq<Input>,
)
    requires
        after_inputs(user_text, inputs) is Some,
    ensures
        is_sound(after_inputs(user_text, inputs)->0),
        chats(user_text, inputs) == after_inputs(user_text, inputs)->0.rounds,
        chats(user_text, inputs) <= MAX_ITERS,
    decreases inputs.len(),
{
    if inputs.len() > 0 {
        law_the_model_is_asked_a_bounded_number_of_times(user_text, inputs.drop_last());
    }
}

/// A gated call runs only when a person has approved that very call.
pub proof fn law_gated_calls_run_only_when_approved(turn: TurnView, input: Input)
    requires
        asks_to_run(turn, input),
    ensures
        ({
            let next = (taken(turn, input)->0).0;
            let call = next.calls[next.next as int];
            is_gated(call.name) ==> {
                &&& turn.phase is Deciding
                &&& input == Input::Decided(true)
                &&& call == turn.calls[turn.next as int]
            }
        }),
{
}

/// A call that changes something, by a write or a command, runs only when a
/// person has approved that very call.
pub proof fn law_destructive_calls_run_only_when_approved(turn: TurnView, input: Input)
    requires
        asks_to_run(turn, input),
    ensures
        ({
            let next = (taken(turn, input)->0).0;
            let call = next.calls[next.next as int];
            let plan = crate::tools::plan_of(call.name, call.arguments);
            plan is Ok && (plan->Ok_0 is WriteFile || plan->Ok_0 is Shell || plan->Ok_0 is Wsl)
                ==> turn.phase is Deciding && input == Input::Decided(true) && call
                == turn.calls[turn.next as int]
        }),
{
    law_gated_calls_run_only_when_approved(turn, input);
    let next = (taken(turn, input)->0).0;
    let call = next.calls[next.next as int];
    crate::tools::law_destructive_plans_are_gated(call.name, call.arguments);
}

/// A stream that fails ends the turn: nothing more is shown or asked for, and the
/// messages stay as they were when the model was asked.
pub proof fn law_a_broken_stream_ends_the_turn(turn: TurnView, e: Seq<char>)
    requires
        turn.phase is Streaming,
    ensures
        taken(turn, Input::Broken(e)) == Some(
            (
                TurnView { phase: Phase::Ended, ..turn },
                Some(StepView { emissions: Seq::empty(), request: RequestView::Failed(e) }),
            ),
        ),
{
}

/// A call that is denied does not run: what is shown of it first is the denial,
/// the model is told of it, and the turn passes on to what comes after it.
pub proof fn law_denied_calls_do_not_run(turn: TurnView)
    requires
        is_sound(turn),
        turn.phase is Deciding,
    ensures
        ({
            let call = turn.calls[turn.next as int];
            let p = decided(turn, false);
            &&& p.turn.messages == turn.messages.push(tool_message(call.id, DENIAL@))
            &&& p.step.emissions[0] == result_shown(call.id, "denied by user"@)
            &&& p.step.request is Execute ==> p.turn.next == turn.next + 1
        }),
{
}

/// The messages of a turn are only ever added to.
pub proof fn law_messages_are_kept(turn: TurnView, input: Input)
    ensures
        taken(turn, input) matches Some((next, _)) ==> turn.messages.is_prefix_of(next.messages),
{
    if let Some((next, _)) = taken(turn, input) {
        assert(turn.messages =~= next.messages.subrange(0, turn.messages.len() as int));
    }
}

/// How far a turn is from its end: the rounds that are left, whether a reply is
/// still to come in this one, and the calls that are left, where one that has
/// yet to be decided on counts for more.
pub open spec fn distance(turn: TurnView) -> (int, int, int) {
    (
        MAX_ITERS - turn.rounds,
        if turn.phase is Streaming {
            1
        } else {
            0
        },
        if turn.phase is Ended {
            0
        } else {
            2 * (turn.calls.len() - turn.next) + if turn.phase is Deciding {
                1int
            } else {
                0int
            }
        },
    )
}

/// Whether one distance is shorter than another: where the rounds are as many,
/// the reply decides, and then the calls.
pub open spec fn is_shorter(a: (int, int, int), b: (int, int, int)) -> bool {
    ||| a.0 < b.0
    ||| a.0 == b.0 && a.1 < b.1
    ||| a.0 == b.0 && a.1 == b.1 && a.2 < b.2
}

/// A turn comes to an end: whatever it is told, but for a delta, brings it
/// closer to it, and the distance is never less than nothing.
pub proof fn law_turns_come_to_an_end(turn: TurnView, input: Input)
    requires
        is_sound(turn),
        !(input is Delta),
    ensures
        taken(turn, input) matches Some((next, _)) ==> is_shorter(distance(next), distance(turn)),
        distance(turn).0 >= 0,
        distance(turn).1 >= 0,
        distance(turn).2 >= 0,
{
}

/// A turn that has ended waits for nothing, and what it asked for last was
/// nothing to be done.
pub proof fn law_an_ended_turn_is_over(turn: TurnView, input: Input)
    ensures
        turn.phase is Ended ==> taken(turn, input) is None,
        taken(turn, input) matches Some((next, Some(step))) ==> (next.phase is Ended
            <==> step.request is Done || step.request is Failed),
{
}

/// A round of a turn: what the assistant said, the calls it made, and what the
/// model was told of each.
pub struct Round {
    pub content: Seq<char>,
    pub calls: Seq<CallView>,
    pub answers: Seq<Seq<char>>,
}

/// The messages of a round: that of the assistant, and for each call that has
/// been answered, in order, the one that answers it.
pub open spec fn round_messages(round: Round) -> Seq<JsonView> {
    seq![assistant_message(round.content, round.calls)] + Seq::new(
        round.answers.len(),
        |i: int| tool_message(round.calls[i].id, round.answers[i]),
    )
}

/// The messages of some rounds.
pub open spec fn rounds_messages(rounds: Seq<Round>) -> Seq<JsonView>
    decreases rounds.len(),
{
    if rounds.len() == 0 {
        Seq::empty()
    } else {
        rounds_messages(rounds.drop_last()) + round_messages(rounds.last())
    }
}

/// Whether every call of the first `n` rounds has been answered once.
pub open spec fn are_answered(rounds: Seq<Round>, n: int) -> bool {
    forall|i: int|
        0 <= i < n ==> (#[trigger] rounds[i]).answers.len() == rounds[i].calls.len()
}

/// Whether a turn stands between two rounds: every call of the rounds before has
/// been answered.
pub open spec fn is_between_rounds(turn: TurnView, rounds: Seq<Round>) -> bool {
    &&& rounds.len() == turn.rounds - 1
    &&& are_answered(rounds, rounds.len() as int)
}

/// Whether a turn stands within the last of some rounds: every call of the rounds
/// before has been answered, and in the last one those before the current call.
pub open spec fn is_within_round(turn: TurnView, rounds: Seq<Round>) -> bool {
    &&& rounds.len() == turn.rounds
    &&& are_answered(rounds, rounds.len() - 1)
    &&& rounds.last().calls == turn.calls
    &&& rounds.last().answers.len() == turn.next
    &&& turn.next <= turn.calls.len()
}

/// Whether the messages of a turn are its opening and these rounds. Whenever the
/// model is asked, every call it has made so far has been answered; and so it is
/// when the turn has ended, be it with a round or because a stream has failed.
pub open spec fn is_transcript(user_text: Seq<char>, turn: TurnView, rounds: Seq<Round>) -> bool {
    &&& turn.messages == opening(user_text) + rounds_messages(rounds)
    &&& match turn.phase {
        Phase::Streaming => is_between_rounds(turn, rounds),
        Phase::Ended => is_between_rounds(turn, rounds) || is_within_round(turn, rounds)
            && turn.next == turn.calls.len(),
        _ => is_within_round(turn, rounds),
    }
}

/// A round that follows others adds its messages.
proof fn lemma_round_added(head: Seq<JsonView>, rounds: Seq<Round>, round: Round)
    ensures
        head + rounds_messages(rounds.push(round)) == head + rounds_messages(rounds)
            + round_messages(round),
{
    assert(rounds.push(round).drop_last() =~= rounds);
    assert(head + (rounds_messages(rounds) + round_messages(round)) =~= head + rounds_messages(
        rounds,
    ) + round_messages(round));
}

/// An answer to the next call adds its message.
proof fn lemma_answer_added(head: Seq<JsonView>, rounds: Seq<Round>, told: Seq<char>)
    requires
        rounds.len() > 0,
        rounds.last().answers.len() < rounds.last().calls.len(),
    ensures
        ({
            let round = rounds.last();
            let more = Round { answers: round.answers.push(told), ..round };
            head + rounds_messages(rounds.drop_last().push(more)) == (head + rounds_messages(
                rounds,
            )).push(tool_message(round.calls[round.answers.len() as int].id, told))
        }),
{
    let round = rounds.last();
    let more = Round { answers: round.answers.push(told), ..round };
    let message = tool_message(round.calls[round.answers.len() as int].id, told);
    assert(round_messages(more) =~= round_messages(round).push(message));
    assert(rounds.drop_last().push(more).drop_last() =~= rounds.drop_last());
    assert(head + rounds_messages(rounds.drop_last().push(more)) =~= (head + rounds_messages(
        rounds,
    )).push(message));
}

/// The deltas that have come since the last reply was complete.
pub open spec fn deltas_since(inputs: Seq<Input>) -> Seq<JsonView>
    decreases inputs.len(),
{
    if inputs.len() == 0 {
        Seq::empty()
    } else {
        match inputs.last() {
            Input::Delta(delta) => deltas_since(inputs.drop_last()).push(delta),
            Input::Replied(_) => Seq::empty(),
            _ => deltas_since(inputs.drop_last()),
        }
    }
}

/// Some rounds with an answer to the next call of the last one.
pub open spec fn with_answer(rounds: Seq<Round>, told: Seq<char>) -> Seq<Round> {
    let last = rounds.last();
    rounds.drop_last().push(Round { answers: last.answers.push(told), ..last })
}

/// Some rounds with what an input brings, where `said` is the text that the
/// deltas have brought: a reply begins a round, and what comes of a call, be it
/// a result, an error or a denial, is the answer to it.
pub open spec fn rounds_after(rounds: Seq<Round>, said: Seq<char>, input: Input) -> Seq<Round> {
    match input {
        Input::Replied(calls) => rounds.push(
            Round { content: said, calls, answers: Seq::empty() },
        ),
        Input::Ran(Ok(s)) => with_answer(rounds, s),
        Input::Ran(Err(e)) => with_answer(rounds, "tool error: "@ + e),
        Input::Decided(false) => with_answer(
            rounds,
            "The user denied this action. Do not retry it; ask how to proceed."@,
        ),
        _ => rounds,
    }
}

/// The rounds that some inputs make up.
pub open spec fn rounds_of(inputs: Seq<Input>) -> Seq<Round>
    decreases inputs.len(),
{
    if inputs.len() == 0 {
        Seq::empty()
    } else {
        rounds_after(
            rounds_of(inputs.drop_last()),
            crate::reply::tokens_of(deltas_since(inputs.drop_last())),
            inputs.last(),
        )
    }
}

/// The reply that is coming in is made of the deltas that have come since the
/// last reply was complete, and of no others.
pub proof fn law_a_reply_is_made_of_its_own_deltas(user_text: Seq<char>, inputs: Seq<Input>)
    requires
        after_inputs(user_text, inputs) is Some,
    ensures
        ({
            let turn = after_inputs(user_text, inputs)->0;
            let deltas = deltas_since(inputs);
            &&& turn.phase is Streaming ==> turn.reply == crate::reply::absorbed_all(
                no_reply(),
                deltas,
            )
            &&& turn.phase is Streaming ==> turn.reply.content == crate::reply::tokens_of(deltas)
            &&& turn.phase is Deciding || turn.phase is Running ==> deltas.len() == 0
        }),
    decreases inputs.len(),
{
    if inputs.len() > 0 {
        law_a_reply_is_made_of_its_own_deltas(user_text, inputs.drop_last());
        let deltas = deltas_since(inputs);
        if inputs.last() is Delta {
            assert(deltas.drop_last() =~= deltas_since(inputs.drop_last()));
        } else if deltas.len() == 0 {
            assert(deltas =~= Seq::empty());
        }
    }
    crate::reply::law_tokens_add_up(deltas_since(inputs));
}

/// What a turn is told keeps its messages a transcript.
proof fn lemma_transcript_goes_on(
    user_text: Seq<char>,
    turn: TurnView,
    rounds: Seq<Round>,
    input: Input,
)
    requires
        is_sound(turn),
        is_transcript(user_text, turn, rounds),
        taken(turn, input) is Some,
    ensures
        is_transcript(
            user_text,
            (taken(turn, input)->0).0,
            rounds_after(rounds, turn.reply.content, input),
        ),
{
    let head = opening(user_text);
    let more = rounds_after(rounds, turn.reply.content, input);
    match input {
        Input::Replied(calls) => {
            let round = Round { content: turn.reply.content, calls, answers: Seq::empty() };
            lemma_round_added(head, rounds, round);
            assert(round_messages(round) =~= seq![assistant_message(round.content, calls)]);
            assert(head + rounds_messages(more) =~= turn.messages.push(
                assistant_message(round.content, calls),
            ));
            assert(are_answered(more, more.len() - 1)) by {
                assert forall|i: int| 0 <= i < more.len() - 1 implies (
                #[trigger] more[i]).answers.len() == more[i].calls.len() by {
                    assert(more[i] == rounds[i]);
                }
            }
        },
        Input::Delta(_) | Input::Broken(_) | Input::Decided(true) => {},
        _ => {
            let told = match input {
                Input::Ran(result) => result_text(result),
                _ => DENIAL@,
            };
            assert(more == with_answer(rounds, told));
            lemma_answer_added(head, rounds, told);
            assert forall|i: int| 0 <= i < more.len() - 1 implies (#[trigger] more[i]).answers.len()
                == more[i].calls.len() by {
                assert(more[i] == rounds[i]);
            }
        },
    }
}

/// Every call is answered once, under its id and in order, before the model is
/// asked again, with what came of it: the messages of a turn are its opening and
/// the rounds that its inputs make up, whatever it has been told.
pub proof fn law_every_call_is_answered_once(user_text: Seq<char>, inputs: Seq<Input>)
    requires
        after_inputs(user_text, inputs) is Some,
    ensures
        is_transcript(user_text, after_inputs(user_text, inputs)->0, rounds_of(inputs)),
    decreases inputs.len(),
{
    if inputs.len() == 0 {
        let none = Seq::<Round>::empty();
        assert(opening(user_text) + rounds_messages(none) =~= opening(user_text));
    } else {
        let before = inputs.drop_last();
        law_every_call_is_answered_once(user_text, before);
        law_the_model_is_asked_a_bounded_number_of_times(user_text, before);
        law_a_reply_is_made_of_its_own_deltas(user_text, before);
        let turn = after_inputs(user_text, before)->0;
        lemma_transcript_goes_on(user_text, turn, rounds_of(before), inputs.last());
    }
}

/// The keys of messages and events differ, for those of one object differ in
/// length.
proof fn lemma_keys_differ()
    ensures
        "id"@.len() == 2,
        "role"@.len() == 4,
        "type"@.len() == 4,
        "name"@.len() == 4,
        "tool"@.len() == 4,
        "result"@.len() == 6,
        "content"@.len() == 7,
        "function"@.len() == 8,
        "arguments"@.len() == 9,
        "tool_calls"@.len() == 10,
        "tool_call_id"@.len() == 12,
{
    reveal_strlit("id");
    reveal_strlit("role");
    reveal_strlit("type");
    reveal_strlit("name");
    reveal_strlit("tool");
    reveal_strlit("result");
    reveal_strlit("content");
    reveal_strlit("function");
    reveal_strlit("arguments");
    reveal_strlit("tool_calls");
    reveal_strlit("tool_call_id");
}

/// A turn begins with the system prompt and what the user said, as it was said.
pub proof fn law_a_turn_begins_with_what_the_user_said(user_text: Seq<char>)
    ensures
        ({
            let turn = started(user_text);
            let system = turn.messages[0];
            let user = turn.messages[1];
            &&& turn.messages.len() == 2
            &&& system.get_text("role"@) == Some("system"@)
            &&& system.get_text("content"@) == Some(SYSTEM_PROMPT@)
            &&& user.get_text("role"@) == Some("user"@)
            &&& user.get_text("content"@) == Some(user_text)
            &&& system->Object_0.dom() == set!["role"@, "content"@]
            &&& user->Object_0.dom() == set!["role"@, "content"@]
            &&& turn.phase is Streaming
            &&& turn.rounds == 1
            &&& turn.reply.content.len() == 0
            &&& turn.reply.calls.len() == 0
        }),
{
    lemma_keys_differ();
    let turn = started(user_text);
    assert(turn.messages[0]->Object_0.dom() =~= set!["role"@, "content"@]);
    assert(turn.messages[1]->Object_0.dom() =~= set!["role"@, "content"@]);
}

/// What came of a call reaches the model and is shown, unchanged: when the
/// current call has run, one message is added, and it answers that call with the
/// text that came of it, all of it; an error is told as one. The same text is
/// shown.
pub proof fn law_results_reach_the_model_unchanged(turn: TurnView, s: Seq<char>)
    requires
        is_sound(turn),
        turn.phase is Running,
    ensures
        ({
            let id = turn.calls[turn.next as int].id;
            let (next, step) = taken(turn, Input::Ran(Ok(s)))->0;
            let message = next.messages.last();
            let shown = step->0.emissions[0];
            &&& taken(turn, Input::Ran(Ok(s))) is Some
            &&& step is Some
            &&& next.messages == turn.messages.push(message)
            &&& message.get_text("role"@) == Some("tool"@)
            &&& message.get_text("tool_call_id"@) == Some(id)
            &&& message.get_text("content"@) == Some(s)
            &&& message->Object_0.dom() == set!["role"@, "tool_call_id"@, "content"@]
            &&& step->0.emissions.len() > 0
            &&& shown.event == "tool-result"@
            &&& shown.payload.get_text("id"@) == Some(id)
            &&& shown.payload.get_text("result"@) == Some(s)
            &&& shown.payload->Object_0.dom() == set!["id"@, "result"@]
        }),
        taken(turn, Input::Ran(Err(s))) == taken(turn, Input::Ran(Ok("tool error: "@ + s))),
{
    lemma_keys_differ();
    let (next, step) = taken(turn, Input::Ran(Ok(s)))->0;
    assert(next.messages.last()->Object_0.dom() =~= set!["role"@, "tool_call_id"@, "content"@]);
    assert(step->0.emissions[0].payload->Object_0.dom() =~= set!["id"@, "result"@]);
    assert(next.messages =~= turn.messages.push(next.messages.last()));
}

/// A denial reaches the model and is shown: one message is added, which answers
/// the call with the demand not to retry it.
pub proof fn law_a_denial_reaches_the_model(turn: TurnView)
    requires
        is_sound(turn),
        turn.phase is Deciding,
    ensures
        ({
            let id = turn.calls[turn.next as int].id;
            let (next, step) = taken(turn, Input::Decided(false))->0;
            let message = next.messages.last();
            let shown = step->0.emissions[0];
            &&& taken(turn, Input::Decided(false)) is Some
            &&& step is Some
            &&& next.messages == turn.messages.push(message)
            &&& message.get_text("role"@) == Some("tool"@)
            &&& message.get_text("tool_call_id"@) == Some(id)
            &&& message.get_text("content"@) == Some(
                "The user denied this action. Do not retry it; ask how to proceed."@,
            )
            &&& message->Object_0.dom() == set!["role"@, "tool_call_id"@, "content"@]
            &&& step->0.emissions.len() > 0
            &&& shown.event == "tool-result"@
            &&& shown.payload.get_text("id"@) == Some(id)
            &&& shown.payload.get_text("result"@) == Some("denied by user"@)
            &&& shown.payload->Object_0.dom() == set!["id"@, "result"@]
        }),
{
    lemma_keys_differ();
    let (next, step) = taken(turn, Input::Decided(false))->0;
    assert(next.messages.last()->Object_0.dom() =~= set!["role"@, "tool_call_id"@, "content"@]);
    assert(step->0.emissions[0].payload->Object_0.dom() =~= set!["id"@, "result"@]);
    assert(next.messages =~= turn.messages.push(next.messages.last()));
}

/// An approval lets the current call run and changes nothing else.
pub proof fn law_an_approval_only_lets_the_call_run(turn: TurnView)
    requires
        turn.phase is Deciding,
    ensures
        ({
            let (next, step) = taken(turn, Input::Decided(true))->0;
            &&& taken(turn, Input::Decided(true)) is Some
            &&& next == TurnView { phase: Phase::Running, ..turn }
            &&& step matches Some(step) && step.request is Execute && step.emissions.len() == 0
        }),
{
}

/// A delta changes the reply and nothing else, and is shown as the text that it
/// brings, as it is.
pub proof fn law_a_delta_is_shown_as_its_text(turn: TurnView, delta: JsonView)
    requires
        turn.phase is Streaming,
    ensures
        ({
            let (next, step) = taken(turn, Input::Delta(delta))->0;
            &&& taken(turn, Input::Delta(delta)) is Some
            &&& step is None
            &&& next == TurnView { reply: next.reply, ..turn }
        }),
        token_of(delta) matches Some(t) ==> (delta_shown(delta) matches Some(e) && e.event
            == "token"@ && e.payload == JsonView::Text(t)),
        token_of(delta) is None ==> delta_shown(delta) is None,
{
}

/// A reply is recorded whole: one message is added, with the role of the
/// assistant, the text of the reply, and each of its calls in its place, by its
/// id, its name and its arguments printed as JSON.
pub proof fn law_a_reply_is_recorded_whole(turn: TurnView, calls: Seq<CallView>, i: int)
    requires
        turn.phase is Streaming,
    ensures
        ({
            let (next, step) = taken(turn, Input::Replied(calls))->0;
            let message = next.messages.last();
            &&& taken(turn, Input::Replied(calls)) is Some
            &&& next.messages == turn.messages.push(message)
            &&& message.get_text("role"@) == Some("assistant"@)
            &&& message.get_text("content"@) == Some(turn.reply.content)
            &&& message->Object_0.dom() == set!["role"@, "content"@, "tool_calls"@]
            &&& message.get("tool_calls"@) matches Some(recorded) && recorded.items() matches Some(
                items,
            ) && {
                &&& items.len() == calls.len()
                &&& 0 <= i < calls.len() ==> {
                    &&& items[i].get_text("id"@) == Some(calls[i].id)
                    &&& items[i].get_text("type"@) == Some("function"@)
                    &&& items[i]->Object_0.dom() == set!["id"@, "type"@, "function"@]
                    &&& items[i].get("function"@) matches Some(f) && {
                        &&& f.get_text("name"@) == Some(calls[i].name)
                        &&& f.get_text("arguments"@) == Some(json_text(calls[i].arguments))
                        &&& f->Object_0.dom() == set!["name"@, "arguments"@]
                    }
                }
            }
        }),
{
    lemma_keys_differ();
    let (next, step) = taken(turn, Input::Replied(calls))->0;
    let message = next.messages.last();
    assert(message->Object_0.dom() =~= set!["role"@, "content"@, "tool_calls"@]);
    assert(next.messages =~= turn.messages.push(message));
    if 0 <= i < calls.len() {
        let item = message.get("tool_calls"@)->0.items()->0[i];
        assert(item == recorded_call(calls[i]));
        assert(item->Object_0.dom() =~= set!["id"@, "type"@, "function"@]);
        let f = item.get("function"@)->0;
        assert(f->Object_0.dom() =~= set!["name"@, "arguments"@]);
    }
}

/// A reply without calls ends the turn well, and its text is shown as the
/// outcome.
pub proof fn law_a_reply_without_calls_is_the_outcome(turn: TurnView)
    requires
        turn.phase is Streaming,
    ensures
        ({
            let (next, step) = taken(turn, Input::Replied(Seq::empty()))->0;
            &&& next.phase is Ended
            &&& next.rounds == turn.rounds
            &&& step matches Some(step) && {
                &&& step.request is Done
                &&& step.emissions.len() == 1
                &&& step.emissions[0].event == "done"@
                &&& step.emissions[0].payload == JsonView::Text(turn.reply.content)
            }
        }),
{
}

/// The calls of a reply are taken in order: the first when the reply is complete,
/// and the next when one has been answered. Each is shown, by its id, its name
/// and its arguments, and then waits for approval, unless it only reads.
pub proof fn law_calls_are_taken_in_order(turn: TurnView, input: Input)
    requires
        is_sound(turn),
        input is Replied || input is Ran || input == Input::Decided(false),
        taken(turn, input) is Some,
    ensures
        ({
            let calls = match input {
                Input::Replied(calls) => calls,
                _ => turn.calls,
            };
            let at = match input {
                Input::Replied(_) => 0,
                _ => turn.next + 1,
            };
            let (next, step) = taken(turn, input)->0;
            let shown = step->0.emissions.last();
            at < calls.len() ==> {
                &&& next.calls == calls
                &&& next.next == at
                &&& next.rounds == turn.rounds
                &&& step is Some
                &&& step->0.emissions.len() == if input is Replied {
                    1nat
                } else {
                    2nat
                }
                &&& shown.event == "tool-call"@
                &&& shown.payload.get_text("id"@) == Some(calls[at as int].id)
                &&& shown.payload.get_text("name"@) == Some(calls[at as int].name)
                &&& shown.payload.get("arguments"@) == Some(calls[at as int].arguments)
                &&& shown.payload->Object_0.dom() == set!["id"@, "name"@, "arguments"@]
                &&& if calls[at as int].name == "read_file"@ || calls[at as int].name
                    == "list_dir"@ {
                    step->0.request is Execute && next.phase is Running
                } else {
                    step->0.request is Approval && next.phase is Deciding
                }
            }
        }),
{
    lemma_keys_differ();
    let (next, step) = taken(turn, input)->0;
    if step is Some && step->0.emissions.len() > 0 && next.next < next.calls.len() {
        let call = next.calls[next.next as int];
        crate::tools::law_only_reading_is_unattended(call.name);
        assert(call_shown(call).payload->Object_0.dom() =~= set!["id"@, "name"@, "arguments"@]);
    }
}

/// When the last call of a reply has been answered, the model is asked again, for
/// a new reply of which nothing has come yet; after 25 rounds the turn fails
/// instead.
pub proof fn law_the_model_is_asked_again_after_the_last_call(turn: TurnView, input: Input)
    requires
        is_sound(turn),
        input is Ran || input == Input::Decided(false),
        taken(turn, input) is Some,
        turn.next + 1 == turn.calls.len(),
    ensures
        ({
            let (next, step) = taken(turn, input)->0;
            &&& step is Some
            &&& step->0.emissions.len() == 1
            &&& turn.rounds < 25 ==> {
                &&& step->0.request is Chat
                &&& next.phase is Streaming
                &&& next.rounds == turn.rounds + 1
                &&& next.reply.content.len() == 0
                &&& next.reply.calls.len() == 0
                &&& next.calls.len() == 0
            }
            &&& turn.rounds >= 25 ==> {
                &&& step->0.request == RequestView::Failed(
                    "agent loop hit iteration limit — task may be too long"@,
                )
                &&& next.phase is Ended
            }
        }),
{
}

/// A person who decides on a call is shown that call: its tool and its arguments,
/// under the id of the approval.
pub proof fn law_an_approval_shows_the_call(approval_id: Seq<char>, call: CallView)
    ensures
        ({
            let shown = approval_shown(approval_id, call);
            &&& shown.event == "approval-requested"@
            &&& shown.payload.get_text("id"@) == Some(approval_id)
            &&& shown.payload.get_text("tool"@) == Some(call.name)
            &&& shown.payload.get("arguments"@) == Some(call.arguments)
            &&& shown.payload->Object_0.dom() == set!["id"@, "tool"@, "arguments"@]
        }),
{
    lemma_keys_differ();
    assert(approval_shown(approval_id, call).payload->Object_0.dom() =~= set![
        "id"@,
        "tool"@,
        "arguments"@,
    ]);
}

/// A turn that has failed shows why.
pub proof fn law_a_failure_shows_its_reason(e: Seq<char>)
    ensures
        error_shown(e).event == "agent-error"@,
        error_shown(e).payload == JsonView::Text(e),
{
}

/// Events and requests are read as they are.
pub proof fn law_steps_are_read_as_they_are(step: Step, e: String, i: int)
    ensures
        step@.emissions.len() == step.emissions@.len(),
        0 <= i < step.emissions@.len() ==> {
            &&& step@.emissions[i].event == step.emissions@[i].event@
            &&& step@.emissions[i].payload == step.emissions@[i].payload@
            &&& option_emission(Some(step.emissions@[i])) == Some(step.emissions@[i]@)
            &&& step.emissions@[i]@ == step@.emissions[i]
        },
        option_emission(None) is None,
        step@.request == step.request@,
        Request::Chat@ == RequestView::Chat,
        Request::Approval@ == RequestView::Approval,
        Request::Execute@ == RequestView::Execute,
        Request::Done@ == RequestView::Done,
        Request::Failed(e)@ == RequestView::Failed(e@),
{
}

/// What a turn is told is taken just as the turn goes on with it, while it waits
/// for that.
pub proof fn law_inputs_are_taken_as_the_turn_goes_on(
    turn: TurnView,
    delta: JsonView,
    calls: Seq<CallView>,
    e: Seq<char>,
    approved: bool,
    result: Result<Seq<char>, Seq<char>>,
)
    ensures
        turn.phase is Streaming ==> {
            let p = replied(turn, calls);
            let b = broken(turn, e);
            &&& taken(turn, Input::Delta(delta)) matches Some((next, None)) && next.reply
                == absorbed(turn.reply, delta)
            &&& taken(turn, Input::Replied(calls)) == Some((p.turn, Some(p.step)))
            &&& taken(turn, Input::Broken(e)) == Some((b.turn, Some(b.step)))
        },
        turn.phase is Deciding ==> {
            let p = decided(turn, approved);
            taken(turn, Input::Decided(approved)) == Some((p.turn, Some(p.step)))
        },
        turn.phase is Running ==> {
            let p = ran(turn, result);
            taken(turn, Input::Ran(result)) == Some((p.turn, Some(p.step)))
        },
{
}

} // verus!
