//! The tools that the model may call: what they are, which of them wait for
//! approval, what a call asks for, and what it reports.

use vstd::prelude::*;

use crate::json::{array_view, put, Json, JsonView};
use crate::text::{decimal_of, join, labelled, same, sort};
use crate::utf8::{cut, decode, decoded, encoded, fitting};

verus! {

/// A tool.
#[derive(Debug)]
pub struct ToolDef {
    pub name: &'static str,
    pub description: &'static str,
    /// The JSON schema of the arguments.
    pub parameters: Json,
    /// Whether the agent waits for a person to approve each call.
    pub needs_approval: bool,
}

/// A tool as text and JSON.
pub struct ToolView {
    pub name: Seq<char>,
    pub description: Seq<char>,
    pub parameters: JsonView,
    pub needs_approval: bool,
}

impl View for ToolDef {
    type V = ToolView;

    open spec fn view(&self) -> ToolView {
        ToolView {
            name: self.name@,
            description: self.description@,
            parameters: self.parameters@,
            needs_approval: self.needs_approval,
        }
    }
}

/// The schema of a string.
pub open spec fn string_schema() -> JsonView {
    JsonView::Object(map!["type"@ => JsonView::Text("string"@)])
}

/// The schema of an object with the given properties, some of them required.
pub open spec fn object_schema(
    properties: Map<Seq<char>, JsonView>,
    required: Seq<JsonView>,
) -> JsonView {
    JsonView::Object(
        map![
            "type"@ => JsonView::Text("object"@),
            "properties"@ => JsonView::Object(properties),
            "required"@ => JsonView::Array(required),
        ],
    )
}

/// The schema of an object whose one property is a required string.
pub open spec fn one_string_schema(name: Seq<char>) -> JsonView {
    object_schema(map![name => string_schema()], seq![JsonView::Text(name)])
}

/// What `wsl` says of itself.
pub const WSL_DESCRIPTION: &'static str = "Run a command inside WSL2 Ubuntu via wsl.exe interop. \
     Every call is a FRESH login shell: re-cd to the working directory \
     and re-establish all context in every call. Prefer `conda run -n <env>` \
     over activation. Do not use `bash -ic`.";

/// Every tool, in the order in which they are offered.
pub open spec fn tool_table() -> Seq<ToolView> {
    seq![
        ToolView {
            name: "read_file"@,
            description: "Read a text file. Returns up to ~20k chars."@,
            parameters: one_string_schema("path"@),
            needs_approval: false,
        },
        ToolView {
            name: "write_file"@,
            description: "Write (create or overwrite) a text file."@,
            parameters: object_schema(
                map!["path"@ => string_schema(), "content"@ => string_schema()],
                seq![JsonView::Text("path"@), JsonView::Text("content"@)],
            ),
            needs_approval: true,
        },
        ToolView {
            name: "list_dir"@,
            description: "List entries in a directory."@,
            parameters: one_string_schema("path"@),
            needs_approval: false,
        },
        ToolView {
            name: "shell"@,
            description: "Run a command in Windows PowerShell. Returns stdout+stderr."@,
            parameters: one_string_schema("command"@),
            needs_approval: true,
        },
        ToolView {
            name: "wsl"@,
            description: WSL_DESCRIPTION@,
            parameters: object_schema(
                map![
                    "command"@ => JsonView::Object(
                        map![
                            "type"@ => JsonView::Text("string"@),
                            "description"@ => JsonView::Text(
                                "bash -lc command to run inside Ubuntu"@,
                            ),
                        ],
                    ),
                ],
                seq![JsonView::Text("command"@)],
            ),
            needs_approval: true,
        },
    ]
}

/// What some tools are.
pub open spec fn tool_views(tools: Seq<ToolDef>) -> Seq<ToolView> {
    tools.map_values(|t: ToolDef| t@)
}

/// The schema of a string.
fn string_type() -> (r: Json)
    ensures
        r@ == string_schema(),
{
    let mut fields: Vec<(String, Json)> = Vec::new();
    put(&mut fields, "type", Json::text("string"));
    Json::Object(fields)
}

/// The schema of an object with the given properties, some of them required.
fn object_type(properties: Vec<(String, Json)>, required: Vec<Json>) -> (r: Json)
    ensures
        r@ == object_schema(crate::json::fields_view(properties@), array_view(required@)),
{
    let mut fields: Vec<(String, Json)> = Vec::new();
    put(&mut fields, "type", Json::text("object"));
    put(&mut fields, "properties", Json::Object(properties));
    put(&mut fields, "required", Json::Array(required));
    Json::Object(fields)
}

/// The schema of an object whose one property is a required string.
fn one_string(name: &str) -> (r: Json)
    ensures
        r@ == one_string_schema(name@),
{
    let mut properties: Vec<(String, Json)> = Vec::new();
    put(&mut properties, name, string_type());
    let mut required: Vec<Json> = Vec::new();
    required.push(Json::text(name));
    assert(array_view(required@) =~= seq![JsonView::Text(name@)]);
    object_type(properties, required)
}

/// The schema of the arguments of `write_file`.
fn path_and_content() -> (r: Json)
    ensures
        r@ == tool_table()[1].parameters,
{
    let mut properties: Vec<(String, Json)> = Vec::new();
    put(&mut properties, "path", string_type());
    put(&mut properties, "content", string_type());
    let mut required: Vec<Json> = Vec::new();
    required.push(Json::text("path"));
    required.push(Json::text("content"));
    assert(array_view(required@) =~= seq![JsonView::Text("path"@), JsonView::Text("content"@)]);
    object_type(properties, required)
}

/// The schema of the arguments of `wsl`.
fn wsl_command() -> (r: Json)
    ensures
        r@ == tool_table()[4].parameters,
{
    let mut command: Vec<(String, Json)> = Vec::new();
    put(&mut command, "type", Json::text("string"));
    put(&mut command, "description", Json::text("bash -lc command to run inside Ubuntu"));
    let mut properties: Vec<(String, Json)> = Vec::new();
    put(&mut properties, "command", Json::Object(command));
    let mut required: Vec<Json> = Vec::new();
    required.push(Json::text("command"));
    assert(array_view(required@) =~= seq![JsonView::Text("command"@)]);
    object_type(properties, required)
}

/// Every tool, in the order in which they are offered.
pub fn all() -> (r: Vec<ToolDef>)
    ensures
        tool_views(r@) == tool_table(),
{
    let mut r: Vec<ToolDef> = Vec::new();
    r.push(
        ToolDef {
            name: "read_file",
            description: "Read a text file. Returns up to ~20k chars.",
            parameters: one_string("path"),
            needs_approval: false,
        },
    );
    r.push(
        ToolDef {
            name: "write_file",
            description: "Write (create or overwrite) a text file.",
            parameters: path_and_content(),
            needs_approval: true,
        },
    );
    r.push(
        ToolDef {
            name: "list_dir",
            description: "List entries in a directory.",
            parameters: one_string("path"),
            needs_approval: false,
        },
    );
    r.push(
        ToolDef {
            name: "shell",
            description: "Run a command in Windows PowerShell. Returns stdout+stderr.",
            parameters: one_string("command"),
            needs_approval: true,
        },
    );
    r.push(
        ToolDef {
            name: "wsl",
            description: WSL_DESCRIPTION,
            parameters: wsl_command(),
            needs_approval: true,
        },
    );
    assert(tool_views(r@) =~= tool_table());
    r
}

/// A tool in the form in which the OpenAI dialect declares a function.
pub open spec fn function_schema(t: ToolView) -> JsonView {
    JsonView::Object(
        map![
            "type"@ => JsonView::Text("function"@),
            "function"@ => JsonView::Object(
                map![
                    "name"@ => JsonView::Text(t.name),
                    "description"@ => JsonView::Text(t.description),
                    "parameters"@ => t.parameters,
                ],
            ),
        ],
    )
}

/// Every tool in the form in which the OpenAI dialect declares functions.
pub fn to_openai_schema() -> (r: Vec<Json>)
    ensures
        array_view(r@) == tool_table().map_values(|t: ToolView| function_schema(t)),
{
    let mut r: Vec<Json> = Vec::new();
    let tools = all();
    let ghost given = tools@;
    for t in it: tools.into_iter()
        invariant
            it.seq() == given,
            tool_views(given) == tool_table(),
            r@.len() == it.index(),
            forall|k: int|
                0 <= k < it.index() ==> (#[trigger] r@[k])@ == function_schema(given[k]@),
    {
        let mut function: Vec<(String, Json)> = Vec::new();
        put(&mut function, "name", Json::text(t.name));
        put(&mut function, "description", Json::text(t.description));
        put(&mut function, "parameters", t.parameters);
        let mut fields: Vec<(String, Json)> = Vec::new();
        put(&mut fields, "type", Json::text("function"));
        put(&mut fields, "function", Json::Object(function));
        r.push(Json::Object(fields));
    }
    proof {
        assert forall|k: int| 0 <= k < r@.len() implies #[trigger] array_view(r@)[k]
            == tool_table().map_values(|t: ToolView| function_schema(t))[k] by {
            assert(tool_views(given)[k] == given[k]@);
        }
        assert(array_view(r@) =~= tool_table().map_values(|t: ToolView| function_schema(t)));
    }
    r
}

/// Whether a call of the tool `name` waits for approval, where `tools` are the
/// tools there are. A tool that is not among them does.
pub open spec fn approval_needed(tools: Seq<ToolView>, name: Seq<char>) -> bool
    decreases tools.len(),
{
    if tools.len() == 0 {
        true
    } else if tools[0].name == name {
        tools[0].needs_approval
    } else {
        approval_needed(tools.drop_first(), name)
    }
}

/// Whether a call of the tool `name` waits for approval.
pub open spec fn is_gated(name: Seq<char>) -> bool {
    approval_needed(tool_table(), name)
}

/// Whether a call of the tool `name` waits for approval. A call of an unknown
/// tool does.
pub fn needs_approval(name: &str) -> (r: bool)
    ensures
        r == is_gated(name@),
{
    let tools = all();
    let mut i: usize = 0;
    assert(tool_views(tools@).skip(0) =~= tool_table());
    while i < tools.len()
        invariant
            i <= tools@.len(),
            is_gated(name@) == approval_needed(tool_views(tools@).skip(i as int), name@),
        decreases tools@.len() - i,
    {
        assert(tool_views(tools@).skip(i as int)[0] == tools@[i as int]@);
        assert(tool_views(tools@).skip(i as int).drop_first() =~= tool_views(tools@).skip(i + 1));
        if same(tools[i].name, name) {
            return tools[i].needs_approval;
        }
        i = i + 1;
    }
    true
}

/// The names of the tools differ, for they differ in length.
proof fn lemma_names_differ()
    ensures
        "read_file"@.len() == 9,
        "write_file"@.len() == 10,
        "list_dir"@.len() == 8,
        "shell"@.len() == 5,
        "wsl"@.len() == 3,
{
    reveal_strlit("read_file");
    reveal_strlit("write_file");
    reveal_strlit("list_dir");
    reveal_strlit("shell");
    reveal_strlit("wsl");
}

/// Only the tools that read, `read_file` and `list_dir`, run without approval.
/// Every other name waits for it, known or not.
pub proof fn law_only_reading_is_unattended(name: Seq<char>)
    ensures
        is_gated(name) <==> name != "read_file"@ && name != "list_dir"@,
{
    reveal_with_fuel(approval_needed, 6);
    lemma_names_differ();
    let t = tool_table();
    assert(t.drop_first()[0] == t[1]);
    assert(t.drop_first().drop_first()[0] == t[2]);
    assert(t.drop_first().drop_first().drop_first()[0] == t[3]);
    assert(t.drop_first().drop_first().drop_first().drop_first()[0] == t[4]);
}

/// What came of an operation that yields a string.
pub open spec fn text_outcome(r: Result<String, String>) -> Result<Seq<char>, Seq<char>> {
    match r {
        Ok(s) => Ok(s@),
        Err(e) => Err(e@),
    }
}

/// The string argument `key`, or the message that it is missing.
pub open spec fn string_argument(args: JsonView, key: Seq<char>) -> Result<Seq<char>, Seq<char>> {
    match args.get_text(key) {
        Some(s) => Ok(s),
        None => Err("missing string arg: "@ + key),
    }
}

/// The string argument `key` of a call.
pub fn str_arg(args: &Json, key: &str) -> (r: Result<String, String>)
    ensures
        text_outcome(r) == string_argument(args@, key@),
{
    match args.get_str(key) {
        Some(s) => Ok(s.to_owned()),
        None => {
            let mut e = "missing string arg: ".to_owned();
            e.append(key);
            Err(e)
        },
    }
}

/// A string of more than `max` bytes cut down to the characters that fit, with a
/// note of its length; any other string as it is.
pub open spec fn truncated(s: Seq<char>, max: nat) -> Seq<char> {
    if encoded(s).len() <= max {
        s
    } else {
        fitting(s, max) + "…[truncated, "@ + crate::text::decimal(encoded(s).len())
            + " bytes total]"@
    }
}

/// Cuts a string down to the characters that fit in `max` bytes and notes its
/// length, where it is longer.
pub fn truncate(s: &str, max: usize) -> (r: String)
    ensures
        r@ == truncated(s@, max as nat),
{
    let len: usize = s.as_bytes().len();
    if len <= max {
        s.to_owned()
    } else {
        let mut r = cut(s, max).to_owned();
        r.append("…[truncated, ");
        r.append(decimal_of(len).as_str());
        r.append(" bytes total]");
        r
    }
}

/// A string that is not too long comes through a cut unchanged. Of a longer one
/// the longest start that fits is kept, and the note follows it: the start has at
/// most `max` bytes, and falls short of them by less than a character; where a character begins
/// after `max` bytes, it is exactly those bytes.
pub proof fn law_truncation_keeps_a_prefix(s: Seq<char>, max: nat)
    ensures
        encoded(s).len() <= max ==> truncated(s, max) == s,
        encoded(s).len() > max ==> exists|head: Seq<char>|
            #![trigger encoded(head)]
            {
                &&& head.is_prefix_of(s)
                &&& encoded(head).len() <= max < encoded(head).len() + 4
                &&& vstd::utf8::is_char_boundary(encoded(s), max as int) ==> encoded(head)
                    == encoded(s).take(max as int)
                &&& head.len() <= max
                &&& forall|n: int|
                    head.len() < n <= s.len() ==> encoded(#[trigger] s.take(n)).len() > max
                &&& truncated(s, max) == head + "…[truncated, "@ + crate::text::decimal(
                    encoded(s).len(),
                ) + " bytes total]"@
            },
{
    if encoded(s).len() > max {
        let head = fitting(s, max);
        crate::utf8::lemma_fitting(s, max);
        crate::utf8::lemma_fitting_is_close(s, max);
        crate::utf8::lemma_no_more_chars_than_bytes(head);
        assert(encoded(head).len() <= max);
    }
}

/// What a call asks for.
#[derive(Debug)]
pub enum ToolPlan {
    ReadFile { path: String },
    WriteFile { path: String, content: String },
    ListDir { path: String },
    Shell { command: String },
    Wsl { command: String },
}

/// What a call asks for, as text.
pub enum PlanView {
    ReadFile { path: Seq<char> },
    WriteFile { path: Seq<char>, content: Seq<char> },
    ListDir { path: Seq<char> },
    Shell { command: Seq<char> },
    Wsl { command: Seq<char> },
}

impl View for ToolPlan {
    type V = PlanView;

    open spec fn view(&self) -> PlanView {
        match self {
            ToolPlan::ReadFile { path } => PlanView::ReadFile { path: path@ },
            ToolPlan::WriteFile { path, content } => PlanView::WriteFile {
                path: path@,
                content: content@,
            },
            ToolPlan::ListDir { path } => PlanView::ListDir { path: path@ },
            ToolPlan::Shell { command } => PlanView::Shell { command: command@ },
            ToolPlan::Wsl { command } => PlanView::Wsl { command: command@ },
        }
    }
}

/// What a call of the tool `name` with `args` asks for, or the message that
/// the name is unknown or an argument missing. The first missing one counts.
pub open spec fn plan_of(name: Seq<char>, args: JsonView) -> Result<PlanView, Seq<char>> {
    let path = string_argument(args, "path"@);
    let content = string_argument(args, "content"@);
    let command = string_argument(args, "command"@);
    if name == "read_file"@ {
        match path {
            Ok(path) => Ok(PlanView::ReadFile { path }),
            Err(e) => Err(e),
        }
    } else if name == "write_file"@ {
        match (path, content) {
            (Ok(path), Ok(content)) => Ok(PlanView::WriteFile { path, content }),
            (Err(e), _) => Err(e),
            (_, Err(e)) => Err(e),
        }
    } else if name == "list_dir"@ {
        match path {
            Ok(path) => Ok(PlanView::ListDir { path }),
            Err(e) => Err(e),
        }
    } else if name == "shell"@ {
        match command {
            Ok(command) => Ok(PlanView::Shell { command }),
            Err(e) => Err(e),
        }
    } else if name == "wsl"@ {
        match command {
            Ok(command) => Ok(PlanView::Wsl { command }),
            Err(e) => Err(e),
        }
    } else {
        Err("unknown tool: "@ + name)
    }
}

/// What came of planning a call.
pub open spec fn plan_outcome(r: Result<ToolPlan, String>) -> Result<PlanView, Seq<char>> {
    match r {
        Ok(p) => Ok(p@),
        Err(e) => Err(e@),
    }
}

/// Reads what a call of the tool `name` with `args` asks for.
pub fn plan(name: &str, args: &Json) -> (r: Result<ToolPlan, String>)
    ensures
        plan_outcome(r) == plan_of(name@, args@),
{
    if same(name, "read_file") {
        match str_arg(args, "path") {
            Ok(path) => Ok(ToolPlan::ReadFile { path }),
            Err(e) => Err(e),
        }
    } else if same(name, "write_file") {
        match str_arg(args, "path") {
            Ok(path) => match str_arg(args, "content") {
                Ok(content) => Ok(ToolPlan::WriteFile { path, content }),
                Err(e) => Err(e),
            },
            Err(e) => Err(e),
        }
    } else if same(name, "list_dir") {
        match str_arg(args, "path") {
            Ok(path) => Ok(ToolPlan::ListDir { path }),
            Err(e) => Err(e),
        }
    } else if same(name, "shell") {
        match str_arg(args, "command") {
            Ok(command) => Ok(ToolPlan::Shell { command }),
            Err(e) => Err(e),
        }
    } else if same(name, "wsl") {
        match str_arg(args, "command") {
            Ok(command) => Ok(ToolPlan::Wsl { command }),
            Err(e) => Err(e),
        }
    } else {
        let mut e = "unknown tool: ".to_owned();
        e.append(name);
        Err(e)
    }
}

/// Every call that can change something, by a write or a command, is a call of
/// a tool that waits for approval.
pub proof fn law_destructive_plans_are_gated(name: Seq<char>, args: JsonView)
    ensures
        plan_of(name, args) matches Ok(p) ==> (p is WriteFile || p is Shell || p is Wsl)
            == is_gated(name),
{
    law_only_reading_is_unattended(name);
    lemma_names_differ();
}

/// A program and its arguments, each handed over as it is.
#[derive(Debug)]
pub struct Invocation {
    pub program: &'static str,
    pub args: Vec<String>,
}

/// The PowerShell run of a command.
pub fn powershell(command: &str) -> (r: Invocation)
    ensures
        r.program@ == "powershell"@,
        crate::text::texts(r.args@) == seq!["-NoProfile"@, "-NonInteractive"@, "-Command"@, command@],
{
    let mut args: Vec<String> = Vec::new();
    args.push("-NoProfile".to_owned());
    args.push("-NonInteractive".to_owned());
    args.push("-Command".to_owned());
    args.push(command.to_owned());
    assert(crate::text::texts(args@) =~= seq![
        "-NoProfile"@,
        "-NonInteractive"@,
        "-Command"@,
        command@,
    ]);
    Invocation { program: "powershell", args }
}

/// The run of a command in a fresh login shell inside WSL2 Ubuntu. The command
/// is one argument, so no layer of quoting comes between.
pub fn wsl(inner: &str) -> (r: Invocation)
    ensures
        r.program@ == "wsl.exe"@,
        crate::text::texts(r.args@) == seq!["-d"@, "Ubuntu"@, "-e"@, "bash"@, "-lc"@, inner@],
{
    let mut args: Vec<String> = Vec::new();
    args.push("-d".to_owned());
    args.push("Ubuntu".to_owned());
    args.push("-e".to_owned());
    args.push("bash".to_owned());
    args.push("-lc".to_owned());
    args.push(inner.to_owned());
    assert(crate::text::texts(args@) =~= seq![
        "-d"@,
        "Ubuntu"@,
        "-e"@,
        "bash"@,
        "-lc"@,
        inner@,
    ]);
    Invocation { program: "wsl.exe", args }
}

/// The bytes of a command's output that are reported.
pub const OUTPUT_LIMIT: usize = 12000;

/// The bytes of a file that are reported.
pub const READ_LIMIT: usize = 20000;

/// The whole output of a command: what it wrote, what it wrote to its error
/// stream, and its status where it failed.
pub open spec fn combined_output(
    stdout: Seq<char>,
    stderr: Seq<char>,
    success: bool,
    status: Seq<char>,
) -> Seq<char> {
    let errors = if stderr.len() == 0 {
        Seq::empty()
    } else {
        "\n[stderr]\n"@ + stderr
    };
    let code = if success {
        Seq::empty()
    } else {
        "\n[exit code: "@ + status + "]"@
    };
    stdout + errors + code
}

/// The whole output of a command.
fn combine(stdout: &str, stderr: &str, success: bool, status: &str) -> (r: String)
    ensures
        r@ == combined_output(stdout@, stderr@, success, status@),
{
    let mut r = stdout.to_owned();
    if !stderr.is_empty() {
        r.append("\n[stderr]\n");
        r.append(stderr);
    }
    assert(stdout@ + Seq::<char>::empty() =~= stdout@);
    if !success {
        r.append("\n[exit code: ");
        r.append(status);
        r.append("]");
    }
    assert(r@ =~= combined_output(stdout@, stderr@, success, status@));
    r
}

/// What is reported of a command that has run: its output, cut to size.
pub fn command_report(stdout: &str, stderr: &str, success: bool, status: &str) -> (r: String)
    ensures
        r@ == truncated(
            combined_output(stdout@, stderr@, success, status@),
            OUTPUT_LIMIT as nat,
        ),
{
    let whole = combine(stdout, stderr, success, status);
    truncate(whole.as_str(), OUTPUT_LIMIT)
}

/// What is reported of a command that has run and wrote bytes. Those that are
/// not UTF-8 are decoded with replacement characters.
pub fn command_output(stdout: &[u8], stderr: &[u8], success: bool, status: &str) -> (r: String)
    ensures
        r@ == truncated(
            combined_output(decoded(stdout@), decoded(stderr@), success, status@),
            OUTPUT_LIMIT as nat,
        ),
{
    let out = decode(stdout);
    let err = decode(stderr);
    command_report(out.as_str(), err.as_str(), success, status)
}

/// The message that a program could not be started.
pub fn spawn_error(program: &str, e: &str) -> (r: String)
    ensures
        r@ == "failed to spawn "@ + program@ + ": "@ + e@,
{
    let mut label = "failed to spawn ".to_owned();
    label.append(program);
    labelled(label.as_str(), e)
}

/// The message that `action` on `path` failed.
fn failure(action: &str, path: &str, e: &str) -> (r: String)
    ensures
        r@ == action@ + path@ + ": "@ + e@,
{
    let mut label = action.to_owned();
    label.append(path);
    labelled(label.as_str(), e)
}

/// What is reported of a file that has been read, or could not be.
pub fn read_report(path: &str, got: Result<String, String>) -> (r: Result<String, String>)
    ensures
        text_outcome(r) == match text_outcome(got) {
            Ok(s) => Ok(truncated(s, READ_LIMIT as nat)),
            Err(e) => Err("read "@ + path@ + ": "@ + e),
        },
{
    match got {
        Ok(s) => Ok(truncate(s.as_str(), READ_LIMIT)),
        Err(e) => Err(failure("read ", path, e.as_str())),
    }
}

/// How a write went.
#[derive(Debug)]
pub enum WriteOutcome {
    Written,
    /// The directory could not be made.
    NoDirectory(String),
    /// The file could not be written.
    NotWritten(String),
}

/// What is reported of a file that has been written, or could not be.
pub open spec fn write_message(path: Seq<char>, outcome: WriteOutcome) -> Result<
    Seq<char>,
    Seq<char>,
> {
    match outcome {
        WriteOutcome::Written => Ok("wrote "@ + path),
        WriteOutcome::NoDirectory(e) => Err("mkdir for "@ + path + ": "@ + e@),
        WriteOutcome::NotWritten(e) => Err("write "@ + path + ": "@ + e@),
    }
}

/// What is reported of a file that has been written, or could not be.
pub fn write_report(path: &str, outcome: WriteOutcome) -> (r: Result<String, String>)
    ensures
        text_outcome(r) == write_message(path@, outcome),
{
    match outcome {
        WriteOutcome::Written => {
            let mut r = "wrote ".to_owned();
            r.append(path);
            Ok(r)
        },
        WriteOutcome::NoDirectory(e) => Err(failure("mkdir for ", path, e.as_str())),
        WriteOutcome::NotWritten(e) => Err(failure("write ", path, e.as_str())),
    }
}

/// How a listing went.
#[derive(Debug)]
pub enum ListOutcome {
    /// The names of the entries, in any order.
    Listed(Vec<String>),
    /// The directory could not be opened.
    NotOpened(String),
    /// An entry could not be read.
    NotRead(String),
}

/// Whether `report` is the listing of the entries `names`: their names in
/// order, one on a line.
pub open spec fn is_listing(names: Seq<Seq<char>>, report: Seq<char>) -> bool {
    exists|sorted: Seq<Seq<char>>|
        {
            &&& #[trigger] sorted.to_multiset() == names.to_multiset()
            &&& crate::text::is_sorted(sorted)
            &&& report == crate::text::joined(sorted, "\n"@)
        }
}

/// What is reported of a directory that has been listed, or could not be.
pub fn list_report(path: &str, outcome: ListOutcome) -> (r: Result<String, String>)
    ensures
        match outcome {
            ListOutcome::Listed(names) => r is Ok && is_listing(
                crate::text::texts(names@),
                (r->Ok_0)@,
            ),
            ListOutcome::NotOpened(e) => r is Err && (r->Err_0)@ == "list "@ + path@ + ": "@ + e@,
            ListOutcome::NotRead(e) => r is Err && (r->Err_0)@ == e@,
        },
{
    match outcome {
        ListOutcome::Listed(names) => {
            let mut names = names;
            sort(&mut names);
            let report = join(&names, "\n");
            assert(is_listing(crate::text::texts(outcome->Listed_0@), report@)) by {
                let sorted = crate::text::texts(names@);
                assert(sorted.to_multiset() == crate::text::texts(
                    outcome->Listed_0@,
                ).to_multiset());
            }
            Ok(report)
        },
        ListOutcome::NotOpened(e) => Err(failure("list ", path, e.as_str())),
        ListOutcome::NotRead(e) => Err(e),
    }
}

/// A listing does not depend on the order in which the entries were met.
pub proof fn law_listings_are_in_one_order(
    names: Seq<Seq<char>>,
    again: Seq<Seq<char>>,
    first: Seq<char>,
    second: Seq<char>,
)
    requires
        names.to_multiset() == again.to_multiset(),
        is_listing(names, first),
        is_listing(again, second),
    ensures
        first == second,
{
    let a = choose|a: Seq<Seq<char>>|
        {
            &&& #[trigger] a.to_multiset() == names.to_multiset()
            &&& crate::text::is_sorted(a)
            &&& first == crate::text::joined(a, "\n"@)
        };
    let b = choose|b: Seq<Seq<char>>|
        {
            &&& #[trigger] b.to_multiset() == again.to_multiset()
            &&& crate::text::is_sorted(b)
            &&& second == crate::text::joined(b, "\n"@)
        };
    crate::text::law_sorting_has_one_outcome(a, b);
}

/// The names of the arguments that a tool's schema requires.
pub open spec fn required_arguments(tool: ToolView) -> Seq<JsonView> {
    tool.parameters.get("required"@)->0.items()->0
}

/// Whether `args` has each argument that a tool's schema requires, as a string.
pub open spec fn are_arguments_for(args: JsonView, tool: ToolView) -> bool {
    forall|k: int|
        0 <= k < required_arguments(tool).len() ==> args.get_text(
            (#[trigger] required_arguments(tool)[k]).text()->0,
        ) is Some
}

/// The arguments that a schema requires are those it was made with.
proof fn lemma_required(properties: Map<Seq<char>, JsonView>, required: Seq<JsonView>)
    ensures
        object_schema(properties, required).get("required"@) == Some(JsonView::Array(required)),
{
}

/// Every tool that is offered can be called: arguments that its schema admits
/// make a plan.
pub proof fn law_offered_tools_can_be_called(i: int, args: JsonView)
    requires
        0 <= i < tool_table().len(),
        are_arguments_for(args, tool_table()[i]),
    ensures
        plan_of(tool_table()[i].name, args) is Ok,
{
    lemma_names_differ();
    let tool = tool_table()[i];
    let one = |name: Seq<char>| seq![JsonView::Text(name)];
    let both = seq![JsonView::Text("path"@), JsonView::Text("content"@)];
    if i == 0 || i == 2 {
        lemma_required(map!["path"@ => string_schema()], one("path"@));
        assert(required_arguments(tool)[0] == JsonView::Text("path"@));
    } else if i == 1 {
        lemma_required(map!["path"@ => string_schema(), "content"@ => string_schema()], both);
        assert(required_arguments(tool)[0] == JsonView::Text("path"@));
        assert(required_arguments(tool)[1] == JsonView::Text("content"@));
    } else {
        assert(required_arguments(tool)[0] == JsonView::Text("command"@));
    }
}

/// Everything a command wrote is reported, in order: its output, then, where it
/// wrote to its error stream, `[stderr]` and all of that, whatever the output and
/// the status are; and where it failed, its status at the end. Nothing else is
/// added. A report of at most 12000 bytes is not cut.
pub proof fn law_everything_a_command_wrote_is_reported(
    stdout: Seq<char>,
    stderr: Seq<char>,
    status: Seq<char>,
    success: bool,
)
    ensures
        ({
            let well = combined_output(stdout, stderr, true, status);
            let badly = combined_output(stdout, stderr, false, status);
            let whole = combined_output(stdout, stderr, success, status);
            &&& stderr.len() > 0 ==> well == stdout + "\n[stderr]\n"@ + stderr
            &&& stderr.len() == 0 ==> well == stdout
            &&& badly == well + "\n[exit code: "@ + status + "]"@
            &&& encoded(whole).len() <= 12000 ==> truncated(whole, OUTPUT_LIMIT as nat) == whole
            &&& OUTPUT_LIMIT == 12000
        }),
{
    let well = combined_output(stdout, stderr, true, status);
    if stderr.len() > 0 {
        assert(well =~= stdout + "\n[stderr]\n"@ + stderr);
    } else {
        assert(well =~= stdout);
    }
    assert(combined_output(stdout, stderr, false, status) =~= well + "\n[exit code: "@ + status
        + "]"@);
}

/// A file of at most 20000 bytes is reported whole.
pub proof fn law_a_short_file_is_reported_whole(s: Seq<char>)
    ensures
        encoded(s).len() <= 20000 ==> truncated(s, READ_LIMIT as nat) == s,
        READ_LIMIT == 20000,
{
}

/// A string argument is what the call gives under its key, as it is; one that is
/// missing or no string is an error that names it.
pub proof fn law_an_argument_is_taken_as_it_is(args: JsonView, key: Seq<char>, s: Seq<char>)
    ensures
        string_argument(args, key) == Ok::<Seq<char>, Seq<char>>(s) <==> args.get(key) == Some(
            JsonView::Text(s),
        ),
        !(args.get(key) matches Some(JsonView::Text(_))) ==> string_argument(args, key) == Err::<
            Seq<char>,
            Seq<char>,
        >("missing string arg: "@ + key),
{
}

/// A call asks for just what its tool does, with the arguments it gives.
pub proof fn law_a_call_asks_for_what_it_says(
    args: JsonView,
    path: Seq<char>,
    content: Seq<char>,
    command: Seq<char>,
)
    ensures
        args.get_text("path"@) == Some(path) ==> {
            &&& plan_of("read_file"@, args) == Ok::<PlanView, Seq<char>>(
                PlanView::ReadFile { path },
            )
            &&& plan_of("list_dir"@, args) == Ok::<PlanView, Seq<char>>(PlanView::ListDir { path })
            &&& args.get_text("content"@) == Some(content) ==> plan_of("write_file"@, args) == Ok::<
                PlanView,
                Seq<char>,
            >(PlanView::WriteFile { path, content })
        },
        args.get_text("command"@) == Some(command) ==> {
            &&& plan_of("shell"@, args) == Ok::<PlanView, Seq<char>>(PlanView::Shell { command })
            &&& plan_of("wsl"@, args) == Ok::<PlanView, Seq<char>>(PlanView::Wsl { command })
        },
{
    lemma_names_differ();
}

/// A call that lacks an argument, or is of a tool that there is not, asks for
/// nothing, and the message says what is wrong.
pub proof fn law_a_bad_call_says_what_is_wrong(name: Seq<char>, args: JsonView)
    ensures
        args.get_text("path"@) is None && (name == "read_file"@ || name == "write_file"@ || name
            == "list_dir"@) ==> plan_of(name, args) == Err::<PlanView, Seq<char>>(
            "missing string arg: path"@,
        ),
        args.get_text("path"@) is Some && args.get_text("content"@) is None ==> plan_of(
            "write_file"@,
            args,
        ) == Err::<PlanView, Seq<char>>("missing string arg: content"@),
        args.get_text("command"@) is None && (name == "shell"@ || name == "wsl"@) ==> plan_of(
            name,
            args,
        ) == Err::<PlanView, Seq<char>>("missing string arg: command"@),
        name != "read_file"@ && name != "write_file"@ && name != "list_dir"@ && name != "shell"@
            && name != "wsl"@ ==> plan_of(name, args) == Err::<PlanView, Seq<char>>(
            "unknown tool: "@ + name,
        ),
{
    lemma_names_differ();
    reveal_strlit("missing string arg: ");
    reveal_strlit("missing string arg: path");
    reveal_strlit("missing string arg: content");
    reveal_strlit("missing string arg: command");
    reveal_strlit("path");
    reveal_strlit("content");
    reveal_strlit("command");
    assert("missing string arg: path"@ =~= "missing string arg: "@ + "path"@);
    assert("missing string arg: content"@ =~= "missing string arg: "@ + "content"@);
    assert("missing string arg: command"@ =~= "missing string arg: "@ + "command"@);
}

/// A write is reported with the path, and one that failed with the reason.
pub proof fn law_a_write_is_reported_with_its_path(path: Seq<char>, e: String)
    ensures
        write_message(path, WriteOutcome::Written) == Ok::<Seq<char>, Seq<char>>("wrote "@ + path),
        write_message(path, WriteOutcome::NoDirectory(e)) == Err::<Seq<char>, Seq<char>>(
            "mkdir for "@ + path + ": "@ + e@,
        ),
        write_message(path, WriteOutcome::NotWritten(e)) == Err::<Seq<char>, Seq<char>>(
            "write "@ + path + ": "@ + e@,
        ),
{
}

/// A listing of names that are in order gives them as they are, one on a line;
/// of other names it is that of the same names in order.
pub proof fn law_a_listing_gives_the_names_in_order(
    names: Seq<Seq<char>>,
    ordered: Seq<Seq<char>>,
    report: Seq<char>,
)
    requires
        ordered.to_multiset() == names.to_multiset(),
        forall|i: int, j: int|
            0 <= i < j < ordered.len() ==> crate::text::text_le(
                #[trigger] ordered[i],
                #[trigger] ordered[j],
            ),
    ensures
        is_listing(names, report) <==> report == crate::text::joined(ordered, "\n"@),
{
    let line_by_line = crate::text::joined(ordered, "\n"@);
    assert(crate::text::is_sorted(ordered));
    assert(is_listing(names, line_by_line));
    if is_listing(names, report) {
        law_listings_are_in_one_order(names, names, report, line_by_line);
    }
}

/// The fields of a schema are those it was made with.
proof fn lemma_schema_fields(properties: Map<Seq<char>, JsonView>, required: Seq<JsonView>)
    ensures
        ({
            let schema = object_schema(properties, required);
            &&& schema.get("type"@) == Some(JsonView::Text("object"@))
            &&& schema.get("properties"@) == Some(JsonView::Object(properties))
            &&& schema.get("required"@) == Some(JsonView::Array(required))
        }),
{
    reveal_strlit("type");
    reveal_strlit("properties");
    reveal_strlit("required");
    assert("type"@.len() == 4 && "properties"@.len() == 10 && "required"@.len() == 8);
}

/// The tools on offer: what each is called and says of itself, whether it waits
/// for approval, and the arguments that it requires, each of them a string.
pub proof fn law_the_tools_on_offer(i: int, k: int)
    requires
        0 <= i < tool_table().len(),
    ensures
        tool_table().len() == 5,
        ({
            let t = tool_table()[i];
            let required = t.parameters.get("required"@)->0;
            &&& i == 0 ==> t.name == "read_file"@ && t.description
                == "Read a text file. Returns up to ~20k chars."@ && !t.needs_approval && required
                == JsonView::Array(seq![JsonView::Text("path"@)])
            &&& i == 1 ==> t.name == "write_file"@ && t.description
                == "Write (create or overwrite) a text file."@ && t.needs_approval && required
                == JsonView::Array(seq![JsonView::Text("path"@), JsonView::Text("content"@)])
            &&& i == 2 ==> t.name == "list_dir"@ && t.description == "List entries in a directory."@
                && !t.needs_approval && required == JsonView::Array(seq![JsonView::Text("path"@)])
            &&& i == 3 ==> t.name == "shell"@ && t.description
                == "Run a command in Windows PowerShell. Returns stdout+stderr."@
                && t.needs_approval && required == JsonView::Array(
                seq![JsonView::Text("command"@)],
            )
            &&& i == 4 ==> t.name == "wsl"@ && t.needs_approval && required == JsonView::Array(
                seq![JsonView::Text("command"@)],
            )
            &&& t.parameters.get("type"@) == Some(JsonView::Text("object"@))
            &&& t.parameters.get("properties"@) matches Some(properties) && (required.at(k)
                matches Some(JsonView::Text(key)) ==> (properties.get(key) matches Some(property)
                && property.get("type"@) == Some(JsonView::Text("string"@))))
        }),
{
    reveal_strlit("path");
    reveal_strlit("content");
    reveal_strlit("type");
    reveal_strlit("description");
    assert("path"@.len() == 4 && "content"@.len() == 7);
    assert("type"@.len() == 4 && "description"@.len() == 11);
    let one = |name: Seq<char>| map![name => string_schema()];
    lemma_schema_fields(one("path"@), seq![JsonView::Text("path"@)]);
    lemma_schema_fields(one("command"@), seq![JsonView::Text("command"@)]);
    lemma_schema_fields(
        map!["path"@ => string_schema(), "content"@ => string_schema()],
        seq![JsonView::Text("path"@), JsonView::Text("content"@)],
    );
    let command = JsonView::Object(
        map![
            "type"@ => JsonView::Text("string"@),
            "description"@ => JsonView::Text("bash -lc command to run inside Ubuntu"@),
        ],
    );
    lemma_schema_fields(map!["command"@ => command], seq![JsonView::Text("command"@)]);
}

/// A tool is declared by its name, its description and the schema of its
/// arguments, each as it is.
pub proof fn law_a_tool_is_declared_as_it_is(t: ToolView)
    ensures
        ({
            let schema = function_schema(t);
            &&& schema.get("type"@) == Some(JsonView::Text("function"@))
            &&& schema.get("function"@) matches Some(f) && {
                &&& f.get("name"@) == Some(JsonView::Text(t.name))
                &&& f.get("description"@) == Some(JsonView::Text(t.description))
                &&& f.get("parameters"@) == Some(t.parameters)
                &&& f->Object_0.dom() == set!["name"@, "description"@, "parameters"@]
            }
            &&& schema->Object_0.dom() == set!["type"@, "function"@]
        }),
{
    reveal_strlit("type");
    reveal_strlit("function");
    reveal_strlit("name");
    reveal_strlit("description");
    reveal_strlit("parameters");
    assert("type"@.len() == 4 && "function"@.len() == 8);
    assert("name"@.len() == 4 && "description"@.len() == 11 && "parameters"@.len() == 10);
    let schema = function_schema(t);
    assert(schema->Object_0.dom() =~= set!["type"@, "function"@]);
    let f = schema.get("function"@)->0;
    assert(f->Object_0.dom() =~= set!["name"@, "description"@, "parameters"@]);
}

/// Tools, plans and outcomes are read as they are.
pub proof fn law_plans_are_read_as_they_are(
    tools: Seq<ToolDef>,
    i: int,
    a: String,
    b: String,
    p: ToolPlan,
)
    ensures
        tool_views(tools).len() == tools.len(),
        0 <= i < tools.len() ==> {
            let t = tool_views(tools)[i];
            &&& t.name == tools[i].name@
            &&& t.description == tools[i].description@
            &&& t.parameters == tools[i].parameters@
            &&& t.needs_approval == tools[i].needs_approval
        },
        (ToolPlan::ReadFile { path: a })@ == (PlanView::ReadFile { path: a@ }),
        (ToolPlan::WriteFile { path: a, content: b })@ == (PlanView::WriteFile {
            path: a@,
            content: b@,
        }),
        (ToolPlan::ListDir { path: a })@ == (PlanView::ListDir { path: a@ }),
        (ToolPlan::Shell { command: a })@ == (PlanView::Shell { command: a@ }),
        (ToolPlan::Wsl { command: a })@ == (PlanView::Wsl { command: a@ }),
        plan_outcome(Ok(p)) == Ok::<PlanView, Seq<char>>(p@),
        plan_outcome(Err(a)) == Err::<PlanView, Seq<char>>(a@),
        text_outcome(Ok(a)) == Ok::<Seq<char>, Seq<char>>(a@),
        text_outcome(Err(a)) == Err::<Seq<char>, Seq<char>>(a@),
{
}

} // verus!
