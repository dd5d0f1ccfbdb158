//! The prompt that the local CLI gets: the whole conversation as one text.

use vstd::prelude::*;

use crate::json::{array_view, json_text, print, Json, JsonView};
use crate::text::{holds, option_text, stands_in};

verus! {

/// What the prompt opens with.
pub const PREAMBLE: &'static str = "You are the REASONING ENGINE ONLY. You have no working tools in this \
         session: do not call, invoke, or use any built-in tool for any reason. \
         The only way to get anything done is the structured response described \
         at the end of this prompt.\n\n";

/// What introduces the tools.
pub const TOOLS_HEADING: &'static str = "AVAILABLE TOOLS (request them in tool_calls — see format below):\n";

/// What introduces the conversation.
pub const CONVERSATION_HEADING: &'static str = "\nCONVERSATION:\n";

/// What the prompt closes with: the form of the answer.
pub const RESPONSE_FORMAT: &'static str = "\nRESPONSE FORMAT — your entire response must be exactly one JSON \
         object, and nothing else:\n\
         {\"text\": \"<reply to the user>\", \"tool_calls\": \
         [{\"name\": \"<tool-name>\", \"arguments\": \"<JSON-encoded args string>\"}]}\n\
         - \"arguments\" is a STRING containing a JSON object, e.g. \
         \"{\\\"path\\\": \\\"C:\\\\temp\\\"}\".\n\
         - Multiple tool calls allowed; use an empty array when no tool is needed.\n\
         - Use only the tools listed above, with arguments matching their schemas.\n\
         - CRITICAL: never invoke any of your own built-in tools (no searching, \
         reading, executing, or browsing yourself) — using them makes your answer \
         unusable.\n";

/// `if_there`, or `otherwise` where it is not there.
pub open spec fn text_or(if_there: Option<Seq<char>>, otherwise: Seq<char>) -> Seq<char> {
    match if_there {
        Some(s) => s,
        None => otherwise,
    }
}

/// The content of a message as text: a string as it is, any other value
/// printed, nothing where there is none.
pub open spec fn content_of(message: JsonView) -> Seq<char> {
    match message.get("content"@) {
        Some(JsonView::Text(s)) => s,
        Some(v) => json_text(v),
        None => Seq::empty(),
    }
}

/// How a system message with this content is given at the head of the prompt.
pub open spec fn system_block(content: Seq<char>) -> Seq<char> {
    if content.len() == 0 {
        Seq::empty()
    } else {
        "SYSTEM:\n"@ + content + "\n\n"@
    }
}

/// How a tool is given.
pub open spec fn tool_block(
    name: Seq<char>,
    description: Seq<char>,
    parameters: Seq<char>,
) -> Seq<char> {
    "- "@ + name + ": "@ + description + "\n  parameters JSON schema:\n  "@ + parameters + "\n"@
}

/// How a message is given in the conversation: who speaks, what is said, which
/// calls the assistant makes, and which call a tool's result belongs to. System
/// messages are not repeated there.
pub open spec fn message_block(
    role: Option<Seq<char>>,
    content: Seq<char>,
    call_id: Option<Seq<char>>,
    calls: Option<Seq<char>>,
) -> Seq<char> {
    if role == Some("system"@) {
        Seq::empty()
    } else if role == Some("assistant"@) {
        let said = if content.len() == 0 {
            Seq::empty()
        } else {
            content + "\n"@
        };
        let called = match calls {
            Some(calls) => "assistant tool_calls:\n"@ + calls + "\n"@,
            None => Seq::empty(),
        };
        "assistant:\n"@ + said + called
    } else if role == Some("tool"@) {
        "tool result (id="@ + text_or(call_id, "?"@) + "):\n"@ + content + "\n"@
    } else {
        "user:\n"@ + content + "\n"@
    }
}

/// The system messages at the head of the prompt.
pub open spec fn system_part(messages: Seq<JsonView>) -> Seq<char>
    decreases messages.len(),
{
    if messages.len() == 0 {
        Seq::empty()
    } else {
        system_part(messages.drop_last()) + if messages.last().get_text("role"@) == Some(
            "system"@,
        ) {
            system_block(content_of(messages.last()))
        } else {
            Seq::empty()
        }
    }
}

/// How a tool's declaration is given. A declaration that is not wrapped in
/// `function` counts as it stands.
pub open spec fn declared_tool(tool: JsonView) -> Seq<char> {
    let f = match tool.get("function"@) {
        Some(f) => f,
        None => tool,
    };
    let parameters = match f.get("parameters"@) {
        Some(p) => p,
        None => JsonView::Null,
    };
    tool_block(
        text_or(f.get_text("name"@), "?"@),
        text_or(f.get_text("description"@), Seq::empty()),
        json_text(parameters),
    )
}

/// The tools.
pub open spec fn tools_part(tools: Seq<JsonView>) -> Seq<char>
    decreases tools.len(),
{
    if tools.len() == 0 {
        Seq::empty()
    } else {
        tools_part(tools.drop_last()) + declared_tool(tools.last())
    }
}

/// How a message is given in the conversation.
pub open spec fn told_message(message: JsonView) -> Seq<char> {
    message_block(
        message.get_text("role"@),
        content_of(message),
        message.get_text("tool_call_id"@),
        match message.get("tool_calls"@) {
            Some(calls) => Some(json_text(calls)),
            None => None,
        },
    )
}

/// The conversation.
pub open spec fn conversation_part(messages: Seq<JsonView>) -> Seq<char>
    decreases messages.len(),
{
    if messages.len() == 0 {
        Seq::empty()
    } else {
        conversation_part(messages.drop_last()) + told_message(messages.last())
    }
}

/// The prompt for a conversation and the tools on offer.
pub open spec fn prompt_text(messages: Seq<JsonView>, tools: Seq<JsonView>) -> Seq<char> {
    PREAMBLE@ + system_part(messages) + TOOLS_HEADING@ + tools_part(tools) + CONVERSATION_HEADING@
        + conversation_part(messages) + RESPONSE_FORMAT@
}

/// The content of a message as text.
fn content_text(message: &Json) -> (r: String)
    ensures
        r@ == content_of(message@),
{
    match message.get("content") {
        Some(Json::Text(s)) => s.clone(),
        Some(v) => print(v),
        None => String::new(),
    }
}

/// Gives a system message at the head of the prompt.
pub fn render_system(content: &str) -> (r: String)
    ensures
        r@ == system_block(content@),
{
    let mut out = String::new();
    if !content.is_empty() {
        out.append("SYSTEM:\n");
        out.append(content);
        out.append("\n\n");
        assert(out@ =~= system_block(content@));
    }
    out
}

/// Gives a tool.
pub fn render_tool(name: &str, description: &str, parameters: &str) -> (r: String)
    ensures
        r@ == tool_block(name@, description@, parameters@),
{
    let mut out = "- ".to_owned();
    out.append(name);
    out.append(": ");
    out.append(description);
    out.append("\n  parameters JSON schema:\n  ");
    out.append(parameters);
    out.append("\n");
    out
}

/// Gives a message in the conversation.
pub fn render_message(
    role: Option<&str>,
    content: &str,
    call_id: Option<&str>,
    calls: Option<&str>,
) -> (r: String)
    ensures
        r@ == message_block(
            option_text(role),
            content@,
            option_text(call_id),
            option_text(calls),
        ),
{
    let mut out = String::new();
    if holds(role, "system") {
        return out;
    }
    if holds(role, "assistant") {
        out.append("assistant:\n");
        if !content.is_empty() {
            out.append(content);
            out.append("\n");
        }
        if let Some(calls) = calls {
            out.append("assistant tool_calls:\n");
            out.append(calls);
            out.append("\n");
        }
    } else if holds(role, "tool") {
        out.append("tool result (id=");
        match call_id {
            Some(id) => out.append(id),
            None => out.append("?"),
        }
        out.append("):\n");
        out.append(content);
        out.append("\n");
    } else {
        out.append("user:\n");
        out.append(content);
        out.append("\n");
    }
    assert(out@ =~= message_block(
        option_text(role),
        content@,
        option_text(call_id),
        option_text(calls),
    ));
    out
}

/// Gives the declaration of a tool.
fn declaration(tool: &Json) -> (r: String)
    ensures
        r@ == declared_tool(tool@),
{
    let f = match tool.get("function") {
        Some(f) => f,
        None => tool,
    };
    let name = match f.get_str("name") {
        Some(n) => n,
        None => "?",
    };
    let description = match f.get_str("description") {
        Some(d) => d,
        None => "",
    };
    let parameters = match f.get("parameters") {
        Some(p) => print(p),
        None => print(&Json::Null),
    };
    proof {
        reveal_strlit("");
        assert(""@ =~= Seq::<char>::empty());
    }
    render_tool(name, description, parameters.as_str())
}

/// Tells a message of the conversation.
fn tell(message: &Json) -> (r: String)
    ensures
        r@ == told_message(message@),
{
    let content = content_text(message);
    let calls = match message.get("tool_calls") {
        Some(calls) => Some(print(calls)),
        None => None,
    };
    let calls_text = match &calls {
        Some(calls) => Some(calls.as_str()),
        None => None,
    };
    render_message(
        message.get_str("role"),
        content.as_str(),
        message.get_str("tool_call_id"),
        calls_text,
    )
}

/// Renders a conversation and the tools on offer as one plain text: the
/// directive to reason only, the system messages, the tools with their schemas,
/// the conversation, and the form of the answer.
pub fn render_prompt(messages: &Vec<Json>, tools: &Vec<Json>) -> (r: String)
    ensures
        r@ == prompt_text(array_view(messages@), array_view(tools@)),
{
    let ghost ms = array_view(messages@);
    let ghost ts = array_view(tools@);
    let mut out = PREAMBLE.to_owned();
    let ghost mut so_far = out@;
    let mut i: usize = 0;
    assert(so_far + system_part(ms.take(0)) =~= so_far);
    while i < messages.len()
        invariant
            i <= messages@.len(),
            ms == array_view(messages@),
            out@ == so_far + system_part(ms.take(i as int)),
        decreases messages@.len() - i,
    {
        proof {
            assert(ms.take(i + 1).drop_last() =~= ms.take(i as int));
            assert(ms.take(i + 1).last() == messages@[i as int]@);
        }
        if holds(messages[i].get_str("role"), "system") {
            let content = content_text(&messages[i]);
            out.append(render_system(content.as_str()).as_str());
        }
        assert(out@ =~= so_far + system_part(ms.take(i + 1)));
        i = i + 1;
    }
    assert(ms.take(ms.len() as int) =~= ms);
    out.append(TOOLS_HEADING);
    proof {
        so_far = out@;
        assert(so_far + tools_part(ts.take(0)) =~= so_far);
    }
    let mut i: usize = 0;
    while i < tools.len()
        invariant
            i <= tools@.len(),
            ts == array_view(tools@),
            out@ == so_far + tools_part(ts.take(i as int)),
        decreases tools@.len() - i,
    {
        proof {
            assert(ts.take(i + 1).drop_last() =~= ts.take(i as int));
            assert(ts.take(i + 1).last() == tools@[i as int]@);
        }
        out.append(declaration(&tools[i]).as_str());
        assert(out@ =~= so_far + tools_part(ts.take(i + 1)));
        i = i + 1;
    }
    assert(ts.take(ts.len() as int) =~= ts);
    out.append(CONVERSATION_HEADING);
    proof {
        so_far = out@;
        assert(so_far + conversation_part(ms.take(0)) =~= so_far);
    }
    let mut i: usize = 0;
    while i < messages.len()
        invariant
            i <= messages@.len(),
            ms == array_view(messages@),
            out@ == so_far + conversation_part(ms.take(i as int)),
        decreases messages@.len() - i,
    {
        proof {
            assert(ms.take(i + 1).drop_last() =~= ms.take(i as int));
            assert(ms.take(i + 1).last() == messages@[i as int]@);
        }
        out.append(tell(&messages[i]).as_str());
        assert(out@ =~= so_far + conversation_part(ms.take(i + 1)));
        i = i + 1;
    }
    out.append(RESPONSE_FORMAT);
    out
}

/// What stands in a piece stands in the whole.
proof fn lemma_stands_within(piece: Seq<char>, before: Seq<char>, part: Seq<char>, after: Seq<char>)
    requires
        stands_in(piece, part),
    ensures
        stands_in(piece, before + part + after),
{
    let (b, a) = choose|b: Seq<char>, a: Seq<char>| part == #[trigger] (b + piece + a);
    assert(before + part + after =~= (before + b) + piece + (a + after));
}

/// A text stands in itself with something around it.
proof fn lemma_stands_around(before: Seq<char>, piece: Seq<char>, after: Seq<char>)
    ensures
        stands_in(piece, before + piece + after),
{
}

/// Each tool stands among the tools.
proof fn lemma_tool_in_part(tools: Seq<JsonView>, i: int)
    requires
        0 <= i < tools.len(),
    ensures
        stands_in(declared_tool(tools[i]), tools_part(tools)),
    decreases tools.len(),
{
    let before = tools_part(tools.drop_last());
    let last = declared_tool(tools.last());
    if i == tools.len() - 1 {
        lemma_stands_around(before, last, Seq::empty());
        assert(before + last + Seq::<char>::empty() =~= before + last);
    } else {
        lemma_tool_in_part(tools.drop_last(), i);
        lemma_stands_within(declared_tool(tools[i]), Seq::empty(), before, last);
        assert(Seq::<char>::empty() + before + last =~= before + last);
    }
}

/// Each message stands in the conversation.
proof fn lemma_message_in_part(messages: Seq<JsonView>, i: int)
    requires
        0 <= i < messages.len(),
    ensures
        stands_in(told_message(messages[i]), conversation_part(messages)),
    decreases messages.len(),
{
    let before = conversation_part(messages.drop_last());
    let last = told_message(messages.last());
    if i == messages.len() - 1 {
        lemma_stands_around(before, last, Seq::empty());
        assert(before + last + Seq::<char>::empty() =~= before + last);
    } else {
        lemma_message_in_part(messages.drop_last(), i);
        lemma_stands_within(told_message(messages[i]), Seq::empty(), before, last);
        assert(Seq::<char>::empty() + before + last =~= before + last);
    }
}

/// Each system message stands at the head of the prompt.
proof fn lemma_system_in_part(messages: Seq<JsonView>, i: int)
    requires
        0 <= i < messages.len(),
        messages[i].get_text("role"@) == Some("system"@),
    ensures
        stands_in(system_block(content_of(messages[i])), system_part(messages)),
    decreases messages.len(),
{
    let before = system_part(messages.drop_last());
    let block = system_block(content_of(messages[i]));
    if i == messages.len() - 1 {
        lemma_stands_around(before, block, Seq::empty());
        assert(before + block + Seq::<char>::empty() =~= before + block);
    } else {
        lemma_system_in_part(messages.drop_last(), i);
        let last = if messages.last().get_text("role"@) == Some("system"@) {
            system_block(content_of(messages.last()))
        } else {
            Seq::empty()
        };
        lemma_stands_within(block, Seq::empty(), before, last);
        assert(Seq::<char>::empty() + before + last =~= before + last);
    }
}

/// The prompt names every tool on offer, with its description and its schema.
pub proof fn law_every_tool_is_in_the_prompt(messages: Seq<JsonView>, tools: Seq<JsonView>, i: int)
    requires
        0 <= i < tools.len(),
    ensures
        stands_in(declared_tool(tools[i]), prompt_text(messages, tools)),
{
    lemma_tool_in_part(tools, i);
    let before = PREAMBLE@ + system_part(messages) + TOOLS_HEADING@;
    let after = CONVERSATION_HEADING@ + conversation_part(messages) + RESPONSE_FORMAT@;
    lemma_stands_within(declared_tool(tools[i]), before, tools_part(tools), after);
    assert(before + tools_part(tools) + after =~= prompt_text(messages, tools));
}

/// The prompt holds the content of every message: that of a system message at
/// its head, that of any other in the conversation.
pub proof fn law_every_message_is_in_the_prompt(
    messages: Seq<JsonView>,
    tools: Seq<JsonView>,
    i: int,
)
    requires
        0 <= i < messages.len(),
    ensures
        stands_in(content_of(messages[i]), prompt_text(messages, tools)),
        messages[i].get_text("role"@) == Some("system"@) ==> stands_in(
            system_block(content_of(messages[i])),
            prompt_text(messages, tools),
        ),
        stands_in(told_message(messages[i]), prompt_text(messages, tools)),
{
    let content = content_of(messages[i]);
    let told = told_message(messages[i]);
    let prompt = prompt_text(messages, tools);
    let before = PREAMBLE@ + system_part(messages) + TOOLS_HEADING@ + tools_part(tools)
        + CONVERSATION_HEADING@;
    lemma_message_in_part(messages, i);
    lemma_stands_within(told, before, conversation_part(messages), RESPONSE_FORMAT@);
    let role = messages[i].get_text("role"@);
    if role == Some("system"@) {
        lemma_system_in_part(messages, i);
        let block = system_block(content);
        let after = TOOLS_HEADING@ + tools_part(tools) + CONVERSATION_HEADING@
            + conversation_part(messages) + RESPONSE_FORMAT@;
        lemma_stands_within(block, PREAMBLE@, system_part(messages), after);
        assert(PREAMBLE@ + system_part(messages) + after =~= prompt);
        if content.len() > 0 {
            lemma_stands_around("SYSTEM:\n"@, content, "\n\n"@);
        } else {
            lemma_stands_around(Seq::empty(), content, block);
            assert(Seq::<char>::empty() + content + block =~= block);
        }
        let (b, a) = choose|b: Seq<char>, a: Seq<char>| prompt == #[trigger] (b + block + a);
        lemma_stands_within(content, b, block, a);
    } else {
        if role == Some("assistant"@) {
            let called = match messages[i].get("tool_calls"@) {
                Some(calls) => "assistant tool_calls:\n"@ + json_text(calls) + "\n"@,
                None => Seq::empty(),
            };
            let rest = if content.len() == 0 {
                called
            } else {
                "\n"@ + called
            };
            lemma_stands_around("assistant:\n"@, content, rest);
            assert("assistant:\n"@ + content + rest =~= told);
        } else if role == Some("tool"@) {
            lemma_stands_around(
                "tool result (id="@ + text_or(messages[i].get_text("tool_call_id"@), "?"@)
                    + "):\n"@,
                content,
                "\n"@,
            );
        } else {
            lemma_stands_around("user:\n"@, content, "\n"@);
        }
        let (b, a) = choose|b: Seq<char>, a: Seq<char>| prompt == #[trigger] (b + told + a);
        lemma_stands_within(content, b, told, a);
    }
}

/// The content of a message is its string as it is, any other value printed, and
/// nothing where there is none.
pub proof fn law_content_is_given_as_it_is(message: JsonView, s: Seq<char>, v: JsonView)
    ensures
        message.get("content"@) == Some(JsonView::Text(s)) ==> content_of(message) == s,
        message.get("content"@) == Some(v) && !(v is Text) ==> content_of(message) == json_text(v),
        message.get("content"@) is None ==> content_of(message).len() == 0,
{
}

/// A prompt without messages and tools is the directive to reason only, the two
/// headings and the form of the answer.
pub proof fn law_an_empty_prompt_is_its_frame()
    ensures
        prompt_text(Seq::empty(), Seq::empty()) == PREAMBLE@ + TOOLS_HEADING@
            + CONVERSATION_HEADING@ + RESPONSE_FORMAT@,
{
    assert(prompt_text(Seq::empty(), Seq::empty()) =~= PREAMBLE@ + TOOLS_HEADING@
        + CONVERSATION_HEADING@ + RESPONSE_FORMAT@);
}

/// A tool that is added to those on offer comes after them, right before the
/// conversation: its name, its description and its schema. Nothing else in the
/// prompt changes. What a declaration does not say is left open, and one that is
/// not wrapped counts as it stands.
pub proof fn law_a_tool_is_added_after_the_others(
    messages: Seq<JsonView>,
    tools: Seq<JsonView>,
    tool: JsonView,
)
    ensures
        ({
            let f = match tool.get("function"@) {
                Some(f) => f,
                None => tool,
            };
            let name = match f.get("name"@) {
                Some(JsonView::Text(name)) => name,
                _ => "?"@,
            };
            let description = match f.get("description"@) {
                Some(JsonView::Text(description)) => description,
                _ => Seq::empty(),
            };
            let parameters = match f.get("parameters"@) {
                Some(parameters) => parameters,
                None => JsonView::Null,
            };
            let added = "- "@ + name + ": "@ + description + "\n  parameters JSON schema:\n  "@
                + json_text(parameters) + "\n"@;
            exists|before: Seq<char>, after: Seq<char>|
                {
                    &&& prompt_text(messages, tools) == #[trigger] (before + after)
                    &&& prompt_text(messages, tools.push(tool)) == before + added + after
                    &&& after == CONVERSATION_HEADING@ + conversation_part(messages)
                        + RESPONSE_FORMAT@
                }
        }),
{
    assert(tools.push(tool).drop_last() =~= tools);
    let before = PREAMBLE@ + system_part(messages) + TOOLS_HEADING@ + tools_part(tools);
    let after = CONVERSATION_HEADING@ + conversation_part(messages) + RESPONSE_FORMAT@;
    assert(prompt_text(messages, tools) =~= before + after);
    assert(prompt_text(messages, tools.push(tool)) =~= before + declared_tool(tool) + after);
}

/// A message that is added to a conversation comes after the others, right before
/// the form of the answer, under the role that speaks: the assistant with the
/// calls it makes, a tool with the id of the call that it answers, and anyone
/// else as the user. Nothing else in the prompt changes.
pub proof fn law_a_message_is_added_after_the_others(
    messages: Seq<JsonView>,
    tools: Seq<JsonView>,
    message: JsonView,
)
    requires
        message.get_text("role"@) != Some("system"@),
    ensures
        ({
            let content = content_of(message);
            let role = message.get_text("role"@);
            let said = if content.len() > 0 {
                content + "\n"@
            } else {
                Seq::empty()
            };
            let called = match message.get("tool_calls"@) {
                Some(calls) => "assistant tool_calls:\n"@ + json_text(calls) + "\n"@,
                None => Seq::empty(),
            };
            let id = match message.get("tool_call_id"@) {
                Some(JsonView::Text(id)) => id,
                _ => "?"@,
            };
            let added = if role == Some("assistant"@) {
                "assistant:\n"@ + said + called
            } else if role == Some("tool"@) {
                "tool result (id="@ + id + "):\n"@ + content + "\n"@
            } else {
                "user:\n"@ + content + "\n"@
            };
            exists|before: Seq<char>|
                {
                    &&& prompt_text(messages, tools) == #[trigger] (before + RESPONSE_FORMAT@)
                    &&& prompt_text(messages.push(message), tools) == before + added
                        + RESPONSE_FORMAT@
                }
        }),
{
    reveal_strlit("assistant");
    reveal_strlit("tool");
    assert("assistant"@.len() == 9 && "tool"@.len() == 4);
    assert(messages.push(message).drop_last() =~= messages);
    assert(system_part(messages.push(message)) =~= system_part(messages));
    let before = PREAMBLE@ + system_part(messages) + TOOLS_HEADING@ + tools_part(tools)
        + CONVERSATION_HEADING@ + conversation_part(messages);
    assert(prompt_text(messages, tools) =~= before + RESPONSE_FORMAT@);
    assert(prompt_text(messages.push(message), tools) =~= before + told_message(message)
        + RESPONSE_FORMAT@);
}

/// A system message that is added comes after the others of its kind, right
/// before the tools, unless it is empty. It is not repeated in the conversation,
/// and nothing else in the prompt changes.
pub proof fn law_a_system_message_is_added_at_the_head(
    messages: Seq<JsonView>,
    tools: Seq<JsonView>,
    message: JsonView,
)
    requires
        message.get_text("role"@) == Some("system"@),
    ensures
        ({
            let content = content_of(message);
            let added = if content.len() > 0 {
                "SYSTEM:\n"@ + content + "\n\n"@
            } else {
                Seq::empty()
            };
            exists|before: Seq<char>, after: Seq<char>|
                {
                    &&& prompt_text(messages, tools) == #[trigger] (before + after)
                    &&& prompt_text(messages.push(message), tools) == before + added + after
                    &&& after == TOOLS_HEADING@ + tools_part(tools) + CONVERSATION_HEADING@
                        + conversation_part(messages) + RESPONSE_FORMAT@
                }
        }),
{
    assert(messages.push(message).drop_last() =~= messages);
    assert(conversation_part(messages.push(message)) =~= conversation_part(messages));
    let before = PREAMBLE@ + system_part(messages);
    let after = TOOLS_HEADING@ + tools_part(tools) + CONVERSATION_HEADING@ + conversation_part(
        messages,
    ) + RESPONSE_FORMAT@;
    assert(prompt_text(messages, tools) =~= before + after);
    assert(prompt_text(messages.push(message), tools) =~= before + system_block(
        content_of(message),
    ) + after);
}

} // verus!
