//! The backend that runs each turn through the locally installed `muse` CLI:
//! how it is started, what its output means, and how its answer becomes the
//! deltas that a streamed chat would bring.
//!
//! The CLI only reasons. Its own tools for acting are switched off, so every
//! step that changes something comes back as a tool call and passes the
//! approval of the agent.

use vstd::prelude::*;

use crate::ids::{is_random_uuid, new_uuid};
use crate::json::{array_view, json_from_str, parse, parse_view, put, Json, JsonView};
use crate::text::{decimal, decimal_of, holds, labelled, last_chars, tail, trim, trimmed};

verus! {

/// The schema of the CLI's final answer, in the strict form of structured
/// output. `arguments` is JSON in a string, since a free-form object would only
/// ever come back empty.
pub const OUTPUT_SCHEMA: &'static str = r#"{"additionalProperties":false,"properties":{"text":{"type":"string"},"tool_calls":{"items":{"additionalProperties":false,"properties":{"arguments":{"description":"JSON object as a string, e.g. {\"path\": \"C:\\temp\"}","type":"string"},"name":{"type":"string"}},"required":["name","arguments"],"type":"object"},"type":"array"}},"required":["text","tool_calls"],"type":"object"}"#;

/// The message that a run took too long.
pub const TIMEOUT_MESSAGE: &'static str = "local CLI timed out after 5 minutes";

/// Why a run of the CLI could not be carried through.
#[derive(Debug)]
pub enum CliFailure {
    /// The prompt could not be written to its file.
    PromptFile(String),
    /// The schema could not be written to its file.
    SchemaFile(String),
    /// The CLI could not be started.
    Spawn(String),
    /// There is no pipe to read what it writes from.
    NotPiped,
    /// What it writes could not be read.
    Output(String),
    /// Its end could not be waited for.
    Exit(String),
    /// It took too long.
    Timeout,
}

/// The message for a run of the CLI that could not be carried through.
pub open spec fn cli_failure_message(failure: CliFailure) -> Seq<char> {
    match failure {
        CliFailure::PromptFile(e) => "local CLI: failed to write prompt file"@ + ": "@ + e@,
        CliFailure::SchemaFile(e) => "local CLI: failed to write schema file"@ + ": "@ + e@,
        CliFailure::Spawn(e) => "local CLI: failed to spawn `muse exec`"@ + ": "@ + e@,
        CliFailure::NotPiped => "local CLI: stdout was not piped"@,
        CliFailure::Output(e) => "local CLI: failed reading stdout"@ + ": "@ + e@,
        CliFailure::Exit(e) => "local CLI: failed waiting for exit"@ + ": "@ + e@,
        CliFailure::Timeout => TIMEOUT_MESSAGE@,
    }
}

impl CliFailure {
    /// The message for the failure.
    pub fn message(&self) -> (r: String)
        ensures
            r@ == cli_failure_message(*self),
    {
        match self {
            CliFailure::PromptFile(e) => labelled(
                "local CLI: failed to write prompt file",
                e.as_str(),
            ),
            CliFailure::SchemaFile(e) => labelled(
                "local CLI: failed to write schema file",
                e.as_str(),
            ),
            CliFailure::Spawn(e) => labelled("local CLI: failed to spawn `muse exec`", e.as_str()),
            CliFailure::NotPiped => "local CLI: stdout was not piped".to_owned(),
            CliFailure::Output(e) => labelled("local CLI: failed reading stdout", e.as_str()),
            CliFailure::Exit(e) => labelled("local CLI: failed waiting for exit", e.as_str()),
            CliFailure::Timeout => TIMEOUT_MESSAGE.to_owned(),
        }
    }
}

/// An argument of the command line that starts the CLI.
#[derive(Debug)]
pub enum CliArg {
    Word(&'static str),
    /// The path of the file that holds the prompt.
    PromptFile,
    /// The path of the file that holds the schema of the answer.
    SchemaFile,
}

/// An argument as text.
pub enum CliArgView {
    Word(Seq<char>),
    PromptFile,
    SchemaFile,
}

impl View for CliArg {
    type V = CliArgView;

    open spec fn view(&self) -> CliArgView {
        match self {
            CliArg::Word(w) => CliArgView::Word(w@),
            CliArg::PromptFile => CliArgView::PromptFile,
            CliArg::SchemaFile => CliArgView::SchemaFile,
        }
    }
}

/// The arguments of `cmd` that run the CLI with a prompt and a schema in files
/// and with its own tools for acting switched off.
pub open spec fn cli_command() -> Seq<CliArgView> {
    seq![
        CliArgView::Word("/C"@),
        CliArgView::Word("muse"@),
        CliArgView::Word("exec"@),
        CliArgView::Word("--json"@),
        CliArgView::Word("--prompt-file"@),
        CliArgView::PromptFile,
        CliArgView::Word("--output-schema"@),
        CliArgView::SchemaFile,
        CliArgView::Word("--disable-shell"@),
        CliArgView::Word("--disable-write"@),
        CliArgView::Word("--disable-web-tools"@),
    ]
}

/// The arguments of `cmd` that run the CLI.
pub fn cli_args() -> (r: Vec<CliArg>)
    ensures
        r@.map_values(|a: CliArg| a@) == cli_command(),
{
    let mut r: Vec<CliArg> = Vec::new();
    r.push(CliArg::Word("/C"));
    r.push(CliArg::Word("muse"));
    r.push(CliArg::Word("exec"));
    r.push(CliArg::Word("--json"));
    r.push(CliArg::Word("--prompt-file"));
    r.push(CliArg::PromptFile);
    r.push(CliArg::Word("--output-schema"));
    r.push(CliArg::SchemaFile);
    r.push(CliArg::Word("--disable-shell"));
    r.push(CliArg::Word("--disable-write"));
    r.push(CliArg::Word("--disable-web-tools"));
    assert(r@.map_values(|a: CliArg| a@) =~= cli_command());
    r
}

/// The names of the files that one run of the CLI reads.
#[derive(Debug)]
pub struct CliFiles {
    pub prompt: String,
    pub schema: String,
}

/// Whether `files` are the names that carry `tag`.
pub open spec fn are_files_for(files: CliFiles, tag: Seq<char>) -> bool {
    &&& files.prompt@ == "musedesk-prompt-"@ + tag + ".md"@
    &&& files.schema@ == "musedesk-schema-"@ + tag + ".json"@
}

/// The names of the files of the run with this tag.
pub fn cli_files_for(tag: &str) -> (r: CliFiles)
    ensures
        are_files_for(r, tag@),
{
    let mut prompt = "musedesk-prompt-".to_owned();
    prompt.append(tag);
    prompt.append(".md");
    let mut schema = "musedesk-schema-".to_owned();
    schema.append(tag);
    schema.append(".json");
    CliFiles { prompt, schema }
}

/// The names of the files of a new run, whose tag is a fresh UUID.
pub fn cli_files() -> (r: CliFiles)
    ensures
        exists|tag: Seq<char>| #[trigger] is_random_uuid(tag) && are_files_for(r, tag),
{
    let tag = new_uuid();
    cli_files_for(tag.as_str())
}

/// The answer text that an event carries: none where it is not the terminal
/// event, an error where the run did not complete or left no text.
pub open spec fn terminal_text(event: JsonView) -> Result<Option<Seq<char>>, Seq<char>> {
    if event.get_text("payload_type"@) != Some("run.terminal.completed"@) {
        Ok(None)
    } else {
        let payload = match event.get("payload"@) {
            Some(p) => p,
            None => JsonView::Null,
        };
        if payload.get_text("terminal"@) != Some("completed"@) {
            let reason = match payload.get_text("reason"@) {
                Some(r) => r,
                None => "unknown reason"@,
            };
            Err("local CLI run did not complete: "@ + reason)
        } else {
            match payload.get_text("text"@) {
                Some(t) => Ok(Some(t)),
                None => Err("local CLI terminal event has no text"@),
            }
        }
    }
}

/// What came of looking for the answer text.
pub open spec fn terminal_outcome(r: Result<Option<String>, String>) -> Result<
    Option<Seq<char>>,
    Seq<char>,
> {
    match r {
        Ok(t) => Ok(crate::text::option_string(t)),
        Err(e) => Err(e@),
    }
}

/// Looks for the answer text in an event.
pub fn read_event(event: &Json) -> (r: Result<Option<String>, String>)
    ensures
        terminal_outcome(r) == terminal_text(event@),
{
    if !holds(event.get_str("payload_type"), "run.terminal.completed") {
        return Ok(None);
    }
    let nothing = Json::Null;
    let payload = match event.get("payload") {
        Some(p) => p,
        None => &nothing,
    };
    if !holds(payload.get_str("terminal"), "completed") {
        let mut e = "local CLI run did not complete: ".to_owned();
        match payload.get_str("reason") {
            Some(reason) => e.append(reason),
            None => e.append("unknown reason"),
        }
        return Err(e);
    }
    match payload.get_str("text") {
        Some(t) => Ok(Some(t.to_owned())),
        None => Err("local CLI terminal event has no text".to_owned()),
    }
}

/// The answer that a parse of its text gave, or the message that it is not
/// JSON.
pub open spec fn answer_of(parsed: Result<JsonView, Seq<char>>) -> Result<JsonView, Seq<char>> {
    match parsed {
        Ok(a) => Ok(a),
        Err(e) => Err("local CLI answer is not valid JSON: "@ + e),
    }
}

/// The answer that a parse of its text gave.
pub fn accept_answer(parsed: Result<Json, String>) -> (r: Result<Json, String>)
    ensures
        parse_view(r) == answer_of(parse_view(parsed)),
{
    match parsed {
        Ok(a) => Ok(a),
        Err(why) => {
            let mut e = "local CLI answer is not valid JSON: ".to_owned();
            e.append(why.as_str());
            Err(e)
        },
    }
}

/// What a line of the CLI's output means: nothing, the answer, or an error. A
/// blank line, a line that is not JSON and an event that is not the terminal
/// one mean nothing.
pub open spec fn line_meaning(line: Seq<char>) -> Result<Option<JsonView>, Seq<char>> {
    if trimmed(line).len() == 0 {
        Ok(None)
    } else {
        match json_from_str(trimmed(line)) {
            Err(_) => Ok(None),
            Ok(event) => match terminal_text(event) {
                Err(e) => Err(e),
                Ok(None) => Ok(None),
                Ok(Some(text)) => match answer_of(json_from_str(text)) {
                    Ok(a) => Ok(Some(a)),
                    Err(e) => Err(e),
                },
            },
        }
    }
}

/// What came of reading a line.
pub open spec fn line_outcome(r: Result<Option<Json>, String>) -> Result<
    Option<JsonView>,
    Seq<char>,
> {
    match r {
        Ok(Some(a)) => Ok(Some(a@)),
        Ok(None) => Ok(None),
        Err(e) => Err(e@),
    }
}

/// Reads a line of the CLI's output.
pub fn read_line(line: &str) -> (r: Result<Option<Json>, String>)
    ensures
        line_outcome(r) == line_meaning(line@),
{
    let line = trim(line);
    if line.as_str().is_empty() {
        return Ok(None);
    }
    match parse(line.as_str()) {
        Err(_) => Ok(None),
        Ok(event) => match read_event(&event) {
            Err(e) => Err(e),
            Ok(None) => Ok(None),
            Ok(Some(text)) => match accept_answer(parse(text.as_str())) {
                Ok(a) => Ok(Some(a)),
                Err(e) => Err(e),
            },
        },
    }
}

/// What is found in the CLI's output once a line has been read, where `found`
/// was found before it. The first line that means something counts.
pub open spec fn line_taken(
    found: Result<Option<JsonView>, Seq<char>>,
    line: Seq<char>,
) -> Result<Option<JsonView>, Seq<char>> {
    match found {
        Ok(None) => line_meaning(line),
        _ => found,
    }
}

/// What is found in the lines of the CLI's output.
pub open spec fn output_meaning(lines: Seq<Seq<char>>) -> Result<Option<JsonView>, Seq<char>>
    decreases lines.len(),
{
    if lines.len() == 0 {
        Ok(None)
    } else {
        line_taken(output_meaning(lines.drop_last()), lines.last())
    }
}

/// A reader of the CLI's output.
#[derive(Debug)]
pub struct CliOutput {
    found: Result<Option<Json>, String>,
}

impl View for CliOutput {
    type V = Result<Option<JsonView>, Seq<char>>;

    closed spec fn view(&self) -> Result<Option<JsonView>, Seq<char>> {
        line_outcome(self.found)
    }
}

impl CliOutput {
    /// A reader before the first line.
    pub fn new() -> (r: CliOutput)
        ensures
            r@ == output_meaning(Seq::empty()),
    {
        CliOutput { found: Ok(None) }
    }

    /// Whether the lines so far leave open what the run comes to.
    pub fn is_open(&self) -> (r: bool)
        ensures
            r == (self@ matches Ok(None)),
    {
        match &self.found {
            Ok(None) => true,
            _ => false,
        }
    }

    /// Takes the next line.
    pub fn on_line(&mut self, line: &str)
        ensures
            final(self)@ == line_taken(old(self)@, line@),
    {
        if self.is_open() {
            self.found = read_line(line);
        }
    }

    /// What has been found: the answer, an error, or neither.
    pub fn into_answer(self) -> (r: Result<Option<Json>, String>)
        ensures
            line_outcome(r) == self@,
    {
        self.found
    }
}

/// To read one line more is to find what all the lines mean together.
pub proof fn law_lines_are_read_in_turn(lines: Seq<Seq<char>>, line: Seq<char>)
    ensures
        output_meaning(lines.push(line)) == line_taken(output_meaning(lines), line),
{
    assert(lines.push(line).drop_last() =~= lines);
}

/// Lines that mean nothing, such as banners and the events before the terminal
/// one, make no difference, however many there are.
pub proof fn law_noise_is_passed_over(noise: Seq<Seq<char>>, lines: Seq<Seq<char>>)
    requires
        forall|i: int| 0 <= i < noise.len() ==> line_meaning(#[trigger] noise[i]) matches Ok(None),
    ensures
        output_meaning(noise + lines) == output_meaning(lines),
    decreases noise.len() + lines.len(),
{
    if lines.len() > 0 {
        assert((noise + lines).drop_last() =~= noise + lines.drop_last());
        law_noise_is_passed_over(noise, lines.drop_last());
    } else if noise.len() > 0 {
        assert(noise + lines =~= noise);
        assert(noise.drop_last() + lines =~= noise.drop_last());
        assert(noise.last() == noise[noise.len() - 1]);
        law_noise_is_passed_over(noise.drop_last(), lines);
    } else {
        assert(noise + lines =~= lines);
    }
}

/// Once the answer or an error has been found, nothing that follows changes it.
pub proof fn law_what_is_found_stands(lines: Seq<Seq<char>>, more: Seq<Seq<char>>)
    requires
        !(output_meaning(lines) matches Ok(None)),
    ensures
        output_meaning(lines + more) == output_meaning(lines),
    decreases more.len(),
{
    if more.len() == 0 {
        assert(lines + more =~= lines);
    } else {
        assert((lines + more).drop_last() =~= lines + more.drop_last());
        law_what_is_found_stands(lines, more.drop_last());
    }
}

/// A delta as the chat endpoint streams it.
pub open spec fn delta_json(delta: JsonView) -> JsonView {
    JsonView::Object(
        map![
            "choices"@ => JsonView::Array(
                seq![JsonView::Object(map!["delta"@ => delta])],
            ),
        ],
    )
}

/// The delta that brings some text.
pub open spec fn content_delta(text: Seq<char>) -> JsonView {
    delta_json(JsonView::Object(map!["content"@ => JsonView::Text(text)]))
}

/// The delta that brings the call at `idx`.
pub open spec fn call_delta(idx: nat, name: Seq<char>, args: Seq<char>) -> JsonView {
    delta_json(
        JsonView::Object(
            map![
                "tool_calls"@ => JsonView::Array(
                    seq![
                        JsonView::Object(
                            map![
                                "index"@ => JsonView::Unsigned(idx as u64),
                                "id"@ => JsonView::Text("call_local_"@ + decimal(idx)),
                                "type"@ => JsonView::Text("function"@),
                                "function"@ => JsonView::Object(
                                    map![
                                        "name"@ => JsonView::Text(name),
                                        "arguments"@ => JsonView::Text(args),
                                    ],
                                ),
                            ],
                        ),
                    ],
                ),
            ],
        ),
    )
}

/// The message that something is wrong with the call at `idx`.
pub open spec fn call_error(idx: nat, wrong: Seq<char>) -> Seq<char> {
    "local CLI tool call #"@ + decimal(idx) + wrong
}

/// The delta for the call at `idx` of an answer, where `parses` says whether
/// its arguments are JSON; or the message of what is wrong with it.
pub open spec fn delta_of_call(idx: nat, call: JsonView, parses: bool) -> Result<
    JsonView,
    Seq<char>,
> {
    match call.get_text("name"@) {
        Some(name) if name.len() > 0 => match call.get_text("arguments"@) {
            None => Err(call_error(idx, " is missing arguments"@)),
            Some(args) => if parses {
                Ok(call_delta(idx, name, args))
            } else {
                Err(call_error(idx, " arguments are not a JSON string"@))
            },
        },
        _ => Err(call_error(idx, " is missing a name"@)),
    }
}

/// Whether the arguments of a call are JSON in a string.
pub open spec fn arguments_parse(call: JsonView) -> bool {
    match call.get_text("arguments"@) {
        Some(args) => json_from_str(args) is Ok,
        None => false,
    }
}

/// The deltas for the first `n` calls, or the message for the first that is
/// wrong.
pub open spec fn deltas_of_calls(calls: Seq<JsonView>, n: nat) -> Result<
    Seq<JsonView>,
    Seq<char>,
>
    decreases n,
{
    if n == 0 {
        Ok(Seq::empty())
    } else {
        match deltas_of_calls(calls, (n - 1) as nat) {
            Err(e) => Err(e),
            Ok(before) => match delta_of_call(
                (n - 1) as nat,
                calls[n - 1],
                arguments_parse(calls[n - 1]),
            ) {
                Err(e) => Err(e),
                Ok(d) => Ok(before.push(d)),
            },
        }
    }
}

/// The deltas for an answer: one for its text, unless that is empty, and one
/// for each of its calls; or the message of what is wrong with it.
pub open spec fn answer_deltas(answer: JsonView) -> Result<Seq<JsonView>, Seq<char>> {
    match answer.get_text("text"@) {
        None => Err("local CLI answer is missing string field \"text\""@),
        Some(text) => match answer.get("tool_calls"@) {
            Some(JsonView::Array(calls)) => match deltas_of_calls(calls, calls.len()) {
                Err(e) => Err(e),
                Ok(deltas) => if text.len() > 0 {
                    Ok(seq![content_delta(text)] + deltas)
                } else {
                    Ok(deltas)
                },
            },
            _ => Err("local CLI answer is missing array field \"tool_calls\""@),
        },
    }
}

/// What came of making deltas.
pub open spec fn deltas_outcome(r: Result<Vec<Json>, String>) -> Result<
    Seq<JsonView>,
    Seq<char>,
> {
    match r {
        Ok(d) => Ok(array_view(d@)),
        Err(e) => Err(e@),
    }
}

/// A delta as the chat endpoint streams it.
fn make_delta(delta: Json) -> (r: Json)
    ensures
        r@ == delta_json(delta@),
{
    let mut choice: Vec<(String, Json)> = Vec::new();
    put(&mut choice, "delta", delta);
    let mut choices: Vec<Json> = Vec::new();
    choices.push(Json::Object(choice));
    assert(array_view(choices@) =~= seq![JsonView::Object(map!["delta"@ => delta@])]);
    let mut fields: Vec<(String, Json)> = Vec::new();
    put(&mut fields, "choices", Json::Array(choices));
    Json::Object(fields)
}

/// The delta that brings some text.
fn make_content_delta(text: &str) -> (r: Json)
    ensures
        r@ == content_delta(text@),
{
    let mut fields: Vec<(String, Json)> = Vec::new();
    put(&mut fields, "content", Json::text(text));
    make_delta(Json::Object(fields))
}

/// The delta that brings the call at `idx`.
fn make_call_delta(idx: usize, name: &str, args: &str) -> (r: Json)
    ensures
        r@ == call_delta(idx as nat, name@, args@),
{
    let mut function: Vec<(String, Json)> = Vec::new();
    put(&mut function, "name", Json::text(name));
    put(&mut function, "arguments", Json::text(args));
    let mut id = "call_local_".to_owned();
    id.append(decimal_of(idx).as_str());
    let mut call: Vec<(String, Json)> = Vec::new();
    put(&mut call, "index", Json::unsigned(idx as u64));
    put(&mut call, "id", Json::Text(id));
    put(&mut call, "type", Json::text("function"));
    put(&mut call, "function", Json::Object(function));
    let ghost call_json = JsonView::Object(crate::json::fields_view(call@));
    let mut calls: Vec<Json> = Vec::new();
    calls.push(Json::Object(call));
    assert(array_view(calls@) =~= seq![call_json]);
    let mut fields: Vec<(String, Json)> = Vec::new();
    put(&mut fields, "tool_calls", Json::Array(calls));
    make_delta(Json::Object(fields))
}

/// The message that something is wrong with the call at `idx`.
fn make_call_error(idx: usize, wrong: &str) -> (r: String)
    ensures
        r@ == call_error(idx as nat, wrong@),
{
    let mut e = "local CLI tool call #".to_owned();
    e.append(decimal_of(idx).as_str());
    e.append(wrong);
    e
}

/// Makes the delta for the call at `idx` of an answer, where `parses` says
/// whether its arguments are JSON.
pub fn delta_for_call(idx: usize, call: &Json, parses: bool) -> (r: Result<Json, String>)
    ensures
        parse_view(r) == delta_of_call(idx as nat, call@, parses),
{
    match call.get_str("name") {
        Some(name) => {
            if name.is_empty() {
                return Err(make_call_error(idx, " is missing a name"));
            }
            match call.get_str("arguments") {
                None => Err(make_call_error(idx, " is missing arguments")),
                Some(args) => if parses {
                    Ok(make_call_delta(idx, name, args))
                } else {
                    Err(make_call_error(idx, " arguments are not a JSON string"))
                },
            }
        },
        None => Err(make_call_error(idx, " is missing a name")),
    }
}

/// Makes one structured answer of the CLI, `{text, tool_calls[]}`, into the
/// deltas that a streamed chat would bring: one with the text, unless that is
/// empty, and one for each call, with indexes from 0 and ids `call_local_<n>`.
pub fn deltas_for_answer(answer: &Json) -> (r: Result<Vec<Json>, String>)
    ensures
        deltas_outcome(r) == answer_deltas(answer@),
{
    let text = match answer.get_str("text") {
        Some(t) => t,
        None => return Err("local CLI answer is missing string field \"text\"".to_owned()),
    };
    let calls = match answer.get("tool_calls") {
        Some(Json::Array(calls)) => calls,
        _ => return Err("local CLI answer is missing array field \"tool_calls\"".to_owned()),
    };
    let mut deltas: Vec<Json> = Vec::new();
    if !text.is_empty() {
        deltas.push(make_content_delta(text));
    }
    let ghost start = array_view(deltas@);
    let ghost views = array_view(calls@);
    assert(start =~= if text@.len() > 0 {
        seq![content_delta(text@)]
    } else {
        Seq::empty()
    });
    let mut idx: usize = 0;
    assert(array_view(deltas@) =~= start + Seq::<JsonView>::empty());
    while idx < calls.len()
        invariant
            idx <= calls@.len(),
            views == array_view(calls@),
            deltas_of_calls(views, idx as nat) is Ok,
            array_view(deltas@) == start + deltas_of_calls(views, idx as nat)->Ok_0,
            answer@.get_text("text"@) == Some(text@),
            answer@.get("tool_calls"@) == Some(JsonView::Array(views)),
        decreases calls@.len() - idx,
    {
        let call = &calls[idx];
        let parses = match call.get_str("arguments") {
            Some(args) => match parse(args) {
                Ok(_) => true,
                Err(_) => false,
            },
            None => false,
        };
        assert(views[idx as int] == call@);
        assert(parses == arguments_parse(call@));
        match delta_for_call(idx, call, parses) {
            Ok(d) => {
                let ghost before = deltas@;
                deltas.push(d);
                assert(array_view(deltas@) =~= array_view(before).push(d@));
                assert(array_view(deltas@) =~= start + deltas_of_calls(
                    views,
                    (idx + 1) as nat,
                )->Ok_0);
            },
            Err(e) => {
                proof {
                    lemma_error_stands(views, (idx + 1) as nat, views.len());
                }
                return Err(e);
            },
        }
        idx = idx + 1;
    }
    assert(array_view(deltas@) =~= answer_deltas(answer@)->Ok_0);
    Ok(deltas)
}

/// The first call that is wrong decides, whatever follows it.
proof fn lemma_error_stands(calls: Seq<JsonView>, n: nat, m: nat)
    requires
        n <= m,
        deltas_of_calls(calls, n) is Err,
    ensures
        deltas_of_calls(calls, m) == deltas_of_calls(calls, n),
    decreases m,
{
    if n < m {
        lemma_error_stands(calls, n, (m - 1) as nat);
    }
}

/// What a run of the CLI comes to when it has ended: the deltas of its answer,
/// or a message. A failed exit counts before a missing answer.
pub open spec fn run_outcome(
    answer: Option<JsonView>,
    success: bool,
    status: Seq<char>,
    stderr: Seq<char>,
) -> Result<Seq<JsonView>, Seq<char>> {
    if !success {
        Err("local CLI failed ("@ + status + "): "@ + last_chars(stderr, 2000))
    } else {
        match answer {
            None => Err("local CLI exited without a terminal answer event"@),
            Some(a) => answer_deltas(a),
        }
    }
}

/// Says what a run of the CLI comes to when it has ended.
pub fn finish_run(answer: Option<&Json>, success: bool, status: &str, stderr: &str) -> (r: Result<
    Vec<Json>,
    String,
>)
    ensures
        deltas_outcome(r) == run_outcome(
            crate::json::option_view(answer),
            success,
            status@,
            stderr@,
        ),
{
    if !success {
        let mut e = "local CLI failed (".to_owned();
        e.append(status);
        e.append("): ");
        e.append(tail(stderr, 2000).as_str());
        return Err(e);
    }
    match answer {
        None => Err("local CLI exited without a terminal answer event".to_owned()),
        Some(a) => deltas_for_answer(a),
    }
}

/// An event is the terminal one by its `payload_type`, and only that one means
/// something: the text of a run that completed, or why there is none.
pub proof fn law_the_terminal_event_carries_the_text(
    event: JsonView,
    payload: JsonView,
    text: Seq<char>,
    reason: Seq<char>,
)
    ensures
        event.get_text("payload_type"@) != Some("run.terminal.completed"@) ==> terminal_text(event)
            == Ok::<Option<Seq<char>>, Seq<char>>(None),
        event.get_text("payload_type"@) == Some("run.terminal.completed"@) && event.get(
            "payload"@,
        ) is None ==> terminal_text(event) == Err::<Option<Seq<char>>, Seq<char>>(
            "local CLI run did not complete: "@ + "unknown reason"@,
        ),
        event.get_text("payload_type"@) == Some("run.terminal.completed"@) && event.get(
            "payload"@,
        ) == Some(payload) ==> {
            let completed = payload.get_text("terminal"@) == Some("completed"@);
            &&& completed && payload.get_text("text"@) == Some(text) ==> terminal_text(event)
                == Ok::<Option<Seq<char>>, Seq<char>>(Some(text))
            &&& completed && payload.get_text("text"@) is None ==> terminal_text(event) == Err::<
                Option<Seq<char>>,
                Seq<char>,
            >("local CLI terminal event has no text"@)
            &&& !completed && payload.get_text("reason"@) == Some(reason) ==> terminal_text(event)
                == Err::<Option<Seq<char>>, Seq<char>>("local CLI run did not complete: "@ + reason)
            &&& !completed && payload.get_text("reason"@) is None ==> terminal_text(event) == Err::<
                Option<Seq<char>>,
                Seq<char>,
            >("local CLI run did not complete: "@ + "unknown reason"@)
        },
{
}

/// A line gives the answer that the text of its terminal event is, as the parser
/// reads it. White space around the line makes no difference. A line that is
/// blank, is no JSON or holds another event gives nothing.
pub proof fn law_a_line_gives_the_answer_it_carries(
    line: Seq<char>,
    event: JsonView,
    text: Seq<char>,
    answer: JsonView,
    why: Seq<char>,
)
    ensures
        trimmed(line).len() == 0 ==> line_meaning(line) == Ok::<Option<JsonView>, Seq<char>>(None),
        trimmed(line).len() > 0 && json_from_str(trimmed(line)) is Err ==> line_meaning(line)
            == Ok::<Option<JsonView>, Seq<char>>(None),
        trimmed(line).len() > 0 && json_from_str(trimmed(line)) == Ok::<JsonView, Seq<char>>(event)
            ==> {
            &&& terminal_text(event) == Ok::<Option<Seq<char>>, Seq<char>>(None) ==> line_meaning(
                line,
            ) == Ok::<Option<JsonView>, Seq<char>>(None)
            &&& terminal_text(event) == Err::<Option<Seq<char>>, Seq<char>>(why) ==> line_meaning(
                line,
            ) == Err::<Option<JsonView>, Seq<char>>(why)
            &&& terminal_text(event) == Ok::<Option<Seq<char>>, Seq<char>>(Some(text)) ==> {
                &&& json_from_str(text) == Ok::<JsonView, Seq<char>>(answer) ==> line_meaning(line)
                    == Ok::<Option<JsonView>, Seq<char>>(Some(answer))
                &&& json_from_str(text) == Err::<JsonView, Seq<char>>(why) ==> line_meaning(line)
                    == Err::<Option<JsonView>, Seq<char>>(
                    "local CLI answer is not valid JSON: "@ + why,
                )
            }
        },
{
}

/// The first line that means something decides what is found in the output: if
/// the lines before it mean nothing, what it means is what is found, whatever
/// follows.
pub proof fn law_the_first_meaning_is_found(
    before: Seq<Seq<char>>,
    line: Seq<char>,
    after: Seq<Seq<char>>,
)
    requires
        forall|i: int| 0 <= i < before.len() ==> line_meaning(#[trigger] before[i]) matches Ok(None),
        !(line_meaning(line) matches Ok(None)),
    ensures
        output_meaning(before + seq![line] + after) == line_meaning(line),
        output_meaning(before) matches Ok(None),
{
    let one = seq![line];
    let none = Seq::<Seq<char>>::empty();
    law_noise_is_passed_over(before, one);
    law_noise_is_passed_over(before, none);
    assert(before + none =~= before);
    assert(one.drop_last() =~= none);
    reveal_with_fuel(output_meaning, 2);
    law_what_is_found_stands(before + one, after);
}

/// An answer is accepted exactly where it has a text and an array of calls, each
/// with a name and with arguments that are JSON in a string.
pub proof fn law_an_answer_is_accepted_where_it_is_whole(answer: JsonView)
    ensures
        answer_deltas(answer) is Ok <==> {
            &&& answer.get_text("text"@) is Some
            &&& answer.get("tool_calls"@) matches Some(JsonView::Array(calls)) && forall|i: int|
                0 <= i < calls.len() ==> {
                    &&& (#[trigger] calls[i]).get_text("name"@) matches Some(name) && name.len() > 0
                    &&& calls[i].get_text("arguments"@) matches Some(args) && json_from_str(
                        args,
                    ) is Ok
                }
        },
{
    if let Some(JsonView::Array(calls)) = answer.get("tool_calls"@) {
        lemma_calls_are_whole(calls, calls.len());
    }
}

/// Whether a call has a name and arguments that are JSON in a string.
spec fn is_whole(call: JsonView) -> bool {
    &&& call.get_text("name"@) matches Some(name) && name.len() > 0
    &&& call.get_text("arguments"@) matches Some(args) && json_from_str(args) is Ok
}

/// Calls are accepted exactly where each is whole.
proof fn lemma_calls_are_whole(calls: Seq<JsonView>, n: nat)
    requires
        n <= calls.len(),
    ensures
        deltas_of_calls(calls, n) is Ok <==> forall|i: int|
            0 <= i < n ==> is_whole(#[trigger] calls[i]),
    decreases n,
{
    if n > 0 {
        lemma_calls_are_whole(calls, (n - 1) as nat);
        assert(is_whole(calls[n - 1]) <==> delta_of_call(
            (n - 1) as nat,
            calls[n - 1],
            arguments_parse(calls[n - 1]),
        ) is Ok);
    }
}

/// The message for an answer that is refused names the first thing that is wrong:
/// the missing text, the missing array, or, by its number, the first call that is
/// not whole.
pub proof fn law_a_refused_answer_says_what_is_wrong(answer: JsonView, i: int)
    ensures
        answer.get_text("text"@) is None ==> answer_deltas(answer) == Err::<
            Seq<JsonView>,
            Seq<char>,
        >("local CLI answer is missing string field \"text\""@),
        answer.get_text("text"@) is Some && !(answer.get("tool_calls"@) matches Some(
            JsonView::Array(_),
        )) ==> answer_deltas(answer) == Err::<Seq<JsonView>, Seq<char>>(
            "local CLI answer is missing array field \"tool_calls\""@,
        ),
        answer.get_text("text"@) is Some && answer.get("tool_calls"@) is Some && answer.get(
            "tool_calls"@,
        )->0 is Array ==> {
            let calls = answer.get("tool_calls"@)->0->Array_0;
            0 <= i < calls.len() && (forall|k: int|
                0 <= k < i ==> {
                    &&& (#[trigger] calls[k]).get_text("name"@) matches Some(name) && name.len() > 0
                    &&& calls[k].get_text("arguments"@) matches Some(args) && json_from_str(
                        args,
                    ) is Ok
                }) ==> {
                let call = calls[i];
                let unnamed = !(call.get_text("name"@) matches Some(name) && name.len() > 0);
                let start = "local CLI tool call #"@ + decimal(i as nat);
                &&& unnamed ==> answer_deltas(answer) == Err::<Seq<JsonView>, Seq<char>>(
                    start + " is missing a name"@,
                )
                &&& !unnamed && call.get_text("arguments"@) is None ==> answer_deltas(answer)
                    == Err::<Seq<JsonView>, Seq<char>>(start + " is missing arguments"@)
                &&& !unnamed && (call.get_text("arguments"@) matches Some(args) && json_from_str(
                    args,
                ) is Err) ==> answer_deltas(answer) == Err::<Seq<JsonView>, Seq<char>>(
                    start + " arguments are not a JSON string"@,
                )
            }
        },
{
    if answer.get_text("text"@) is Some && answer.get("tool_calls"@) is Some && answer.get(
        "tool_calls"@,
    )->0 is Array {
        let calls = answer.get("tool_calls"@)->0->Array_0;
        if 0 <= i < calls.len() && (forall|k: int|
            0 <= k < i ==> {
                &&& (#[trigger] calls[k]).get_text("name"@) matches Some(name) && name.len() > 0
                &&& calls[k].get_text("arguments"@) matches Some(args) && json_from_str(args) is Ok
            }) && !is_whole(calls[i]) {
            lemma_calls_are_whole(calls, i as nat);
            lemma_calls_are_whole(calls, (i + 1) as nat);
            lemma_error_stands(calls, (i + 1) as nat, calls.len());
        }
    }
}

/// A run that failed is reported with its status and the end of what it wrote to
/// its error stream, 2000 characters at most; one that ended well comes to its
/// answer, and without one to an error.
pub proof fn law_a_run_comes_to_its_answer(
    answer: Option<JsonView>,
    status: Seq<char>,
    stderr: Seq<char>,
)
    ensures
        exists|before: Seq<char>, end: Seq<char>|
            {
                &&& stderr == #[trigger] (before + end)
                &&& end.len() <= 2000
                &&& before.len() > 0 ==> end.len() == 2000
                &&& run_outcome(answer, false, status, stderr) == Err::<Seq<JsonView>, Seq<char>>(
                    "local CLI failed ("@ + status + "): "@ + end,
                )
            },
        answer matches Some(a) ==> run_outcome(answer, true, status, stderr) == answer_deltas(a),
        answer is None ==> run_outcome(answer, true, status, stderr) == Err::<
            Seq<JsonView>,
            Seq<char>,
        >("local CLI exited without a terminal answer event"@),
{
    let end = last_chars(stderr, 2000);
    crate::text::law_the_last_characters_are_an_end(stderr, 2000);
    let before = choose|before: Seq<char>| stderr == #[trigger] (before + end);
    assert(stderr.len() == before.len() + end.len());
}

/// The names of the files of a run carry its tag, and no two runs with different
/// tags share a file.
pub proof fn law_runs_do_not_share_files(a: CliFiles, b: CliFiles, s: Seq<char>, t: Seq<char>)
    requires
        are_files_for(a, s),
        are_files_for(b, t),
    ensures
        a.prompt@ == "musedesk-prompt-"@ + s + ".md"@,
        a.schema@ == "musedesk-schema-"@ + s + ".json"@,
        s != t ==> a.prompt@ != b.prompt@ && a.schema@ != b.schema@,
{
    if a.prompt@ == b.prompt@ {
        lemma_middle("musedesk-prompt-"@, s, t, ".md"@);
    }
    if a.schema@ == b.schema@ {
        lemma_middle("musedesk-schema-"@, s, t, ".json"@);
    }
}

/// What stands between the same two texts can be told from the whole.
proof fn lemma_middle(head: Seq<char>, s: Seq<char>, t: Seq<char>, end: Seq<char>)
    requires
        head + s + end == head + t + end,
    ensures
        s == t,
{
    let whole = head + s + end;
    assert(whole.len() == head.len() + s.len() + end.len());
    assert((head + t + end).len() == head.len() + t.len() + end.len());
    assert(s =~= whole.subrange(head.len() as int, (head.len() + s.len()) as int));
    assert(t =~= whole.subrange(head.len() as int, (head.len() + t.len()) as int));
}

/// The CLI runs with its own tools for acting switched off, and reads the prompt
/// and the schema from the files named right after their flags.
pub proof fn law_the_cli_only_reasons(i: int)
    requires
        0 <= i < cli_command().len(),
    ensures
        cli_command().contains(CliArgView::Word("--disable-shell"@)),
        cli_command().contains(CliArgView::Word("--disable-write"@)),
        cli_command().contains(CliArgView::Word("--disable-web-tools"@)),
        cli_command()[i] is PromptFile ==> i > 0 && cli_command()[i - 1] == CliArgView::Word(
            "--prompt-file"@,
        ),
        cli_command()[i] is SchemaFile ==> i > 0 && cli_command()[i - 1] == CliArgView::Word(
            "--output-schema"@,
        ),
{
    assert(cli_command()[8] == CliArgView::Word("--disable-shell"@));
    assert(cli_command()[9] == CliArgView::Word("--disable-write"@));
    assert(cli_command()[10] == CliArgView::Word("--disable-web-tools"@));
}

/// A run that could not be carried through is reported with its reason.
pub proof fn law_a_run_that_broke_off_gives_its_reason(e: String)
    ensures
        ({
            let prompt = cli_failure_message(CliFailure::PromptFile(e));
            let schema = cli_failure_message(CliFailure::SchemaFile(e));
            let spawn = cli_failure_message(CliFailure::Spawn(e));
            let output = cli_failure_message(CliFailure::Output(e));
            let exit = cli_failure_message(CliFailure::Exit(e));
            &&& prompt == "local CLI: failed to write prompt file: "@ + e@
            &&& schema == "local CLI: failed to write schema file: "@ + e@
            &&& spawn == "local CLI: failed to spawn `muse exec`: "@ + e@
            &&& output == "local CLI: failed reading stdout: "@ + e@
            &&& exit == "local CLI: failed waiting for exit: "@ + e@
        }),
{
    reveal_strlit(": ");
    reveal_strlit("local CLI: failed to write prompt file");
    reveal_strlit("local CLI: failed to write prompt file: ");
    assert("local CLI: failed to write prompt file: "@ =~= "local CLI: failed to write prompt file"@
        + ": "@);
    reveal_strlit("local CLI: failed to write schema file");
    reveal_strlit("local CLI: failed to write schema file: ");
    assert("local CLI: failed to write schema file: "@ =~= "local CLI: failed to write schema file"@
        + ": "@);
    reveal_strlit("local CLI: failed to spawn `muse exec`");
    reveal_strlit("local CLI: failed to spawn `muse exec`: ");
    assert("local CLI: failed to spawn `muse exec`: "@ =~= "local CLI: failed to spawn `muse exec`"@
        + ": "@);
    reveal_strlit("local CLI: failed reading stdout");
    reveal_strlit("local CLI: failed reading stdout: ");
    assert("local CLI: failed reading stdout: "@ =~= "local CLI: failed reading stdout"@ + ": "@);
    reveal_strlit("local CLI: failed waiting for exit");
    reveal_strlit("local CLI: failed waiting for exit: ");
    assert("local CLI: failed waiting for exit: "@ =~= "local CLI: failed waiting for exit"@
        + ": "@);
}

/// Arguments and outcomes are read as they are.
pub proof fn law_runs_are_read_as_they_are(
    word: &'static str,
    s: String,
    answer: Json,
    deltas: Vec<Json>,
)
    ensures
        CliArg::Word(word)@ == CliArgView::Word(word@),
        CliArg::PromptFile@ == CliArgView::PromptFile,
        CliArg::SchemaFile@ == CliArgView::SchemaFile,
        terminal_outcome(Ok(Some(s))) == Ok::<Option<Seq<char>>, Seq<char>>(Some(s@)),
        terminal_outcome(Ok(None)) == Ok::<Option<Seq<char>>, Seq<char>>(None),
        terminal_outcome(Err(s)) == Err::<Option<Seq<char>>, Seq<char>>(s@),
        line_outcome(Ok(Some(answer))) == Ok::<Option<JsonView>, Seq<char>>(Some(answer@)),
        line_outcome(Ok(None)) == Ok::<Option<JsonView>, Seq<char>>(None),
        line_outcome(Err(s)) == Err::<Option<JsonView>, Seq<char>>(s@),
        deltas_outcome(Ok(deltas)) == Ok::<Seq<JsonView>, Seq<char>>(array_view(deltas@)),
        deltas_outcome(Err(s)) == Err::<Seq<JsonView>, Seq<char>>(s@),
{
}

} // verus!
