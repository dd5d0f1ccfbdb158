//! Which model backend serves the agent, as the environment says.

use vstd::prelude::*;

use crate::json::{array_view, copy, put, Json, JsonView};
use crate::text::{labelled, option_string, same, to_debug, to_lowercase, trim, trim_trailing};

verus! {

/// The settings that are read from the environment. A variable that is not set,
/// or is not Unicode, is `None`.
#[derive(Debug)]
pub struct Env {
    /// `MUSED_BACKEND`
    pub backend: Option<String>,
    /// `META_BASE_URL`
    pub base_url: Option<String>,
    /// `META_API_KEY`
    pub api_key: Option<String>,
    /// `MODEL`
    pub model: Option<String>,
}

/// Settings for the chat endpoint of the Meta Model API, which speaks the
/// OpenAI dialect.
#[derive(Clone, Debug)]
pub struct MetaApiClient {
    pub base_url: String,
    pub api_key: String,
    pub model: String,
}

/// Settings for the locally installed `muse` CLI, which needs no key.
#[derive(Clone, Debug)]
pub struct LocalCliClient {
    timeout_secs: u64,
}

/// Which model backend serves a chat. `MUSED_BACKEND` selects it: `local-cli`
/// needs no API key; `meta-api`, a blank value or none is the Meta API.
#[derive(Clone, Debug)]
pub enum ModelBackend {
    MetaApi(MetaApiClient),
    LocalCli(LocalCliClient),
}

/// The settings as text.
pub struct EnvView {
    pub backend: Option<Seq<char>>,
    pub base_url: Option<Seq<char>>,
    pub api_key: Option<Seq<char>>,
    pub model: Option<Seq<char>>,
}

/// The settings of a Meta API client as text.
pub struct MetaApiView {
    pub base_url: Seq<char>,
    pub api_key: Seq<char>,
    pub model: Seq<char>,
}

/// A backend: the settings of the Meta API, or the local CLI with the seconds
/// that a run of it may take.
pub enum BackendView {
    MetaApi(MetaApiView),
    LocalCli(u64),
}

/// The seconds that one run of the local CLI may take.
pub const CLI_TIMEOUT_SECS: u64 = 300;

impl View for Env {
    type V = EnvView;

    open spec fn view(&self) -> EnvView {
        EnvView {
            backend: option_string(self.backend),
            base_url: option_string(self.base_url),
            api_key: option_string(self.api_key),
            model: option_string(self.model),
        }
    }
}

impl View for MetaApiClient {
    type V = MetaApiView;

    open spec fn view(&self) -> MetaApiView {
        MetaApiView { base_url: self.base_url@, api_key: self.api_key@, model: self.model@ }
    }
}

impl View for LocalCliClient {
    type V = u64;

    closed spec fn view(&self) -> u64 {
        self.timeout_secs
    }
}

impl View for ModelBackend {
    type V = BackendView;

    open spec fn view(&self) -> BackendView {
        match self {
            ModelBackend::MetaApi(c) => BackendView::MetaApi(c@),
            ModelBackend::LocalCli(c) => BackendView::LocalCli(c@),
        }
    }
}

/// Whether a setting is missing: not set, or blank.
pub open spec fn is_missing(value: Option<Seq<char>>) -> bool {
    match value {
        Some(v) => crate::text::trimmed(v).len() == 0,
        None => true,
    }
}

/// The message that names what is missing.
pub open spec fn missing_message(base_url: bool, api_key: bool) -> Seq<char> {
    let names = if base_url && api_key {
        "META_BASE_URL"@ + " and "@ + "META_API_KEY"@
    } else if base_url {
        "META_BASE_URL"@
    } else {
        "META_API_KEY"@
    };
    let them = if base_url && api_key {
        "them"@
    } else {
        "it"@
    };
    "missing "@ + names + " — set "@ + them
        + " (see .env.example), or set MUSED_BACKEND=local-cli to use the local CLI with no key"@
}

/// The Meta API settings that the environment gives, or the message that names
/// every missing one.
pub open spec fn meta_api_from(env: EnvView) -> Result<MetaApiView, Seq<char>> {
    if is_missing(env.base_url) || is_missing(env.api_key) {
        Err(missing_message(is_missing(env.base_url), is_missing(env.api_key)))
    } else {
        Ok(
            MetaApiView {
                base_url: env.base_url->0,
                api_key: env.api_key->0,
                model: match env.model {
                    Some(m) => m,
                    None => "muse-spark-1.2"@,
                },
            },
        )
    }
}

/// The value of `MUSED_BACKEND`; none counts as empty.
pub open spec fn backend_setting(env: EnvView) -> Seq<char> {
    match env.backend {
        Some(b) => b,
        None => Seq::empty(),
    }
}

/// The message for a value of `MUSED_BACKEND` that names no backend.
pub open spec fn unknown_backend_message(setting: Seq<char>) -> Seq<char> {
    "unknown MUSED_BACKEND="@ + crate::text::debug_text(setting)
        + " (expected meta-api or local-cli)"@
}

/// The backend that the environment selects, where `chosen` is its
/// `MUSED_BACKEND`, trimmed and in lower case.
pub open spec fn backend_from(env: EnvView, chosen: Seq<char>) -> Result<BackendView, Seq<char>> {
    if chosen == "local-cli"@ {
        Ok(BackendView::LocalCli(CLI_TIMEOUT_SECS))
    } else if chosen.len() == 0 || chosen == "meta-api"@ {
        match meta_api_from(env) {
            Ok(c) => Ok(BackendView::MetaApi(c)),
            Err(e) => Err(e),
        }
    } else {
        Err(unknown_backend_message(backend_setting(env)))
    }
}

/// What came of reading the Meta API settings.
pub open spec fn meta_api_outcome(r: Result<MetaApiClient, String>) -> Result<
    MetaApiView,
    Seq<char>,
> {
    match r {
        Ok(c) => Ok(c@),
        Err(e) => Err(e@),
    }
}

/// What came of selecting a backend.
pub open spec fn backend_outcome(r: Result<ModelBackend, String>) -> Result<
    BackendView,
    Seq<char>,
> {
    match r {
        Ok(b) => Ok(b@),
        Err(e) => Err(e@),
    }
}

/// Whether a setting is missing: not set, or blank.
fn missing(value: &Option<String>) -> (r: bool)
    ensures
        r == is_missing(option_string(*value)),
{
    match value {
        Some(v) => {
            let t = trim(v.as_str());
            t.as_str().is_empty()
        },
        None => true,
    }
}

impl MetaApiClient {
    /// Reads the Meta API settings. Where some are missing, the error names
    /// every one of them; a blank setting counts as missing.
    pub fn from_env(env: &Env) -> (r: Result<MetaApiClient, String>)
        ensures
            meta_api_outcome(r) == meta_api_from(env@),
    {
        let no_url = missing(&env.base_url);
        let no_key = missing(&env.api_key);
        if no_url || no_key {
            let mut e = "missing ".to_owned();
            let names: String = if no_url && no_key {
                let mut both = "META_BASE_URL".to_owned();
                both.append(" and ");
                both.append("META_API_KEY");
                both
            } else if no_url {
                "META_BASE_URL".to_owned()
            } else {
                "META_API_KEY".to_owned()
            };
            e.append(names.as_str());
            e.append(" — set ");
            e.append(
                if no_url && no_key {
                    "them"
                } else {
                    "it"
                },
            );
            e.append(
                " (see .env.example), or set MUSED_BACKEND=local-cli to use the local CLI with no key",
            );
            return Err(e);
        }
        match (&env.base_url, &env.api_key) {
            (Some(base_url), Some(api_key)) => {
                let model = match &env.model {
                    Some(m) => m.clone(),
                    None => "muse-spark-1.2".to_owned(),
                };
                Ok(MetaApiClient { base_url: base_url.clone(), api_key: api_key.clone(), model })
            },
            _ => {
                assert(false);
                Err(String::new())
            },
        }
    }

    /// The address of the chat endpoint: the base URL, whose trailing slashes
    /// do not count, and the path.
    pub fn chat_url(&self) -> (r: String)
        ensures
            r@ == crate::text::without_trailing(self@.base_url, '/') + "/chat/completions"@,
    {
        let mut url = trim_trailing(self.base_url.as_str(), '/');
        url.append("/chat/completions");
        url
    }

    /// The body of a chat request that asks for a streamed answer.
    pub fn chat_body(&self, messages: &Vec<Json>, tools: &Vec<Json>) -> (r: Json)
        ensures
            r@ == chat_body_json(self@.model, array_view(messages@), array_view(tools@)),
    {
        let mut fields: Vec<(String, Json)> = Vec::new();
        put(&mut fields, "model", Json::text(self.model.as_str()));
        put(&mut fields, "messages", copy_all(messages));
        put(&mut fields, "tools", copy_all(tools));
        put(&mut fields, "stream", Json::Bool(true));
        Json::Object(fields)
    }
}

/// The body of a chat request.
pub open spec fn chat_body_json(
    model: Seq<char>,
    messages: Seq<JsonView>,
    tools: Seq<JsonView>,
) -> JsonView {
    JsonView::Object(
        map![
            "model"@ => JsonView::Text(model),
            "messages"@ => JsonView::Array(messages),
            "tools"@ => JsonView::Array(tools),
            "stream"@ => JsonView::Bool(true),
        ],
    )
}

/// Why a chat over HTTP failed.
#[derive(Debug)]
pub enum ChatFailure {
    /// The request could not be made.
    Request(String),
    /// The endpoint refused it, with this text.
    Refused(String),
    /// The stream of the answer broke off.
    Stream(String),
}

/// The message for a chat over HTTP that failed.
pub open spec fn chat_failure_message(failure: ChatFailure) -> Seq<char> {
    match failure {
        ChatFailure::Request(e) => "request failed"@ + ": "@ + e@,
        ChatFailure::Refused(text) => "API error"@ + ": "@ + text@,
        ChatFailure::Stream(e) => "stream error"@ + ": "@ + e@,
    }
}

impl ChatFailure {
    /// The message for the failure.
    pub fn message(&self) -> (r: String)
        ensures
            r@ == chat_failure_message(*self),
    {
        match self {
            ChatFailure::Request(e) => labelled("request failed", e.as_str()),
            ChatFailure::Refused(text) => labelled("API error", text.as_str()),
            ChatFailure::Stream(e) => labelled("stream error", e.as_str()),
        }
    }
}

/// An array of copies of some values.
fn copy_all(items: &Vec<Json>) -> (r: Json)
    ensures
        r@ == JsonView::Array(array_view(items@)),
{
    let mut out: Vec<Json> = Vec::new();
    let mut i: usize = 0;
    while i < items.len()
        invariant
            i <= items@.len(),
            out@.len() == i,
            forall|k: int| 0 <= k < i ==> (#[trigger] out@[k])@ == items@[k]@,
        decreases items@.len() - i,
    {
        out.push(copy(&items[i]));
        i = i + 1;
    }
    assert(array_view(out@) =~= array_view(items@));
    Json::Array(out)
}

impl Default for LocalCliClient {
    fn default() -> (r: LocalCliClient)
        ensures
            r@ == CLI_TIMEOUT_SECS,
    {
        LocalCliClient { timeout_secs: CLI_TIMEOUT_SECS }
    }
}

impl LocalCliClient {
    /// The seconds that one run of the CLI may take.
    pub fn timeout_secs(&self) -> (r: u64)
        ensures
            r == self@,
    {
        self.timeout_secs
    }
}

impl ModelBackend {
    /// Selects the backend. White space around the value of `MUSED_BACKEND`
    /// and the case of its letters make no difference; the local CLI needs no
    /// other setting.
    pub fn from_env(env: &Env) -> (r: Result<ModelBackend, String>)
        ensures
            backend_outcome(r) == backend_from(
                env@,
                crate::text::lowercase(crate::text::trimmed(backend_setting(env@))),
            ),
            ({
                let setting = crate::text::trimmed(backend_setting(env@));
                vstd::utf8::is_ascii_chars(setting) ==> backend_outcome(r) == backend_from(
                    env@,
                    crate::text::ascii_lowered(setting),
                )
            }),
    {
        let raw = match &env.backend {
            Some(b) => b.clone(),
            None => String::new(),
        };
        let setting = trim(raw.as_str());
        let chosen = to_lowercase(setting.as_str());
        ModelBackend::select(env, chosen.as_str())
    }

    /// Selects the backend by the value of `MUSED_BACKEND`, which has been
    /// trimmed and put in lower case.
    pub fn select(env: &Env, chosen: &str) -> (r: Result<ModelBackend, String>)
        ensures
            backend_outcome(r) == backend_from(env@, chosen@),
    {
        if same(chosen, "local-cli") {
            Ok(ModelBackend::LocalCli(LocalCliClient::default()))
        } else if chosen.is_empty() || same(chosen, "meta-api") {
            match MetaApiClient::from_env(env) {
                Ok(c) => Ok(ModelBackend::MetaApi(c)),
                Err(e) => Err(e),
            }
        } else {
            let raw = match &env.backend {
                Some(b) => to_debug(b.as_str()),
                None => to_debug(""),
            };
            let mut e = "unknown MUSED_BACKEND=".to_owned();
            e.append(raw.as_str());
            e.append(" (expected meta-api or local-cli)");
            proof {
                reveal_strlit("");
                assert(""@ =~= Seq::<char>::empty());
            }
            Err(e)
        }
    }
}

/// The local CLI needs no setting but its own: where it is selected, nothing
/// else in the environment makes a difference, and nothing can be missing.
pub proof fn law_local_cli_needs_no_other_setting(env: EnvView)
    ensures
        backend_from(env, "local-cli"@) == Ok::<BackendView, Seq<char>>(
            BackendView::LocalCli(CLI_TIMEOUT_SECS),
        ),
{
}

/// A setting for the Meta API that is missing is named in the error, whichever
/// of them it is, and where none is missing there is no error.
pub proof fn law_missing_settings_are_named(env: EnvView)
    ensures
        meta_api_from(env) is Err <==> is_missing(env.base_url) || is_missing(env.api_key),
        is_missing(env.base_url) ==> crate::text::stands_in(
            "META_BASE_URL"@,
            meta_api_from(env)->Err_0,
        ),
        is_missing(env.api_key) ==> crate::text::stands_in(
            "META_API_KEY"@,
            meta_api_from(env)->Err_0,
        ),
{
    let url = "META_BASE_URL"@;
    let key = "META_API_KEY"@;
    let close =
        " (see .env.example), or set MUSED_BACKEND=local-cli to use the local CLI with no key"@;
    if is_missing(env.base_url) && is_missing(env.api_key) {
        let e = meta_api_from(env)->Err_0;
        let rest = " — set "@ + "them"@ + close;
        assert(e =~= "missing "@ + url + (" and "@ + key + rest));
        assert(e =~= ("missing "@ + url + " and "@) + key + rest);
    } else if is_missing(env.base_url) {
        let e = meta_api_from(env)->Err_0;
        assert(e =~= "missing "@ + url + (" — set "@ + "it"@ + close));
    } else if is_missing(env.api_key) {
        let e = meta_api_from(env)->Err_0;
        assert(e =~= "missing "@ + key + (" — set "@ + "it"@ + close));
    }
}

/// However `local-cli` is spelled, in small letters or capitals and with white
/// space around it, it selects the local CLI, whatever else is set.
pub proof fn law_spelling_of_local_cli_makes_no_difference(
    env: EnvView,
    before: Seq<char>,
    name: Seq<char>,
    after: Seq<char>,
)
    requires
        forall|i: int|
            0 <= i < before.len() ==> crate::text::is_white_space(#[trigger] before[i]),
        forall|i: int| 0 <= i < after.len() ==> crate::text::is_white_space(#[trigger] after[i]),
        vstd::utf8::is_ascii_chars(name),
        crate::text::ascii_lowered(name) == "local-cli"@,
        backend_setting(env) == before + name + after,
    ensures
        ({
            let setting = crate::text::trimmed(backend_setting(env));
            &&& vstd::utf8::is_ascii_chars(setting)
            &&& backend_from(env, crate::text::ascii_lowered(setting)) == Ok::<
                BackendView,
                Seq<char>,
            >(BackendView::LocalCli(CLI_TIMEOUT_SECS))
        }),
{
    reveal_strlit("local-cli");
    let small = crate::text::ascii_lowered(name);
    assert(small.len() == name.len());
    assert("local-cli"@.len() == 9);
    assert(small[0] == 'l' && small[8] == 'i');
    assert(crate::text::ascii_lower(name[0]) == 'l');
    assert(crate::text::ascii_lower(name[8]) == 'i');
    assert(crate::text::trimmed(name) == name);
    crate::text::law_padding_is_trimmed(before, name, after);
}

/// The whole conversation and every tool are sent: the body of a chat request
/// holds each message and each tool in its place, and no others, with the model
/// that was set, and asks for a stream.
pub proof fn law_the_whole_conversation_is_sent(
    model: Seq<char>,
    messages: Seq<JsonView>,
    tools: Seq<JsonView>,
)
    ensures
        ({
            let body = chat_body_json(model, messages, tools);
            &&& body.get("messages"@) matches Some(sent) && sent.items() matches Some(items) && {
                &&& items.len() == messages.len()
                &&& forall|i: int| 0 <= i < messages.len() ==> #[trigger] items[i] == messages[i]
            }
            &&& body.get("tools"@) matches Some(sent) && sent.items() matches Some(items) && {
                &&& items.len() == tools.len()
                &&& forall|i: int| 0 <= i < tools.len() ==> #[trigger] items[i] == tools[i]
            }
            &&& body.get("model"@) == Some(JsonView::Text(model))
            &&& body.get("stream"@) == Some(JsonView::Bool(true))
            &&& body->Object_0.dom() == set!["model"@, "messages"@, "tools"@, "stream"@]
        }),
{
    reveal_strlit("model");
    reveal_strlit("messages");
    reveal_strlit("tools");
    reveal_strlit("stream");
    assert("model"@[0] == 'm' && "tools"@[0] == 't');
    assert("model"@.len() == 5 && "messages"@.len() == 8 && "stream"@.len() == 6);
    assert(chat_body_json(model, messages, tools)->Object_0.dom() =~= set![
        "model"@,
        "messages"@,
        "tools"@,
        "stream"@,
    ]);
}

/// A setting is missing exactly where it is not set, or holds nothing but white
/// space.
pub proof fn law_a_blank_setting_is_missing(value: Seq<char>)
    ensures
        is_missing(None),
        is_missing(Some(value)) <==> forall|i: int|
            0 <= i < value.len() ==> crate::text::is_white_space(#[trigger] value[i]),
{
    let kept = crate::text::trimmed(value);
    crate::text::law_trimming_removes_white_space_only(value);
    let (before, after) = choose|before: Seq<char>, after: Seq<char>|
        {
            &&& value == #[trigger] (before + kept + after)
            &&& forall|i: int|
                0 <= i < before.len() ==> crate::text::is_white_space(#[trigger] before[i])
            &&& forall|i: int| 0 <= i < after.len() ==> crate::text::is_white_space(
                #[trigger] after[i],
            )
        };
    if kept.len() == 0 {
        assert forall|i: int| 0 <= i < value.len() implies crate::text::is_white_space(
            #[trigger] value[i],
        ) by {
            if i < before.len() {
                assert(value[i] == before[i]);
            } else {
                assert(value[i] == after[i - before.len()]);
            }
        }
    } else {
        assert(value[before.len() as int] == kept[0]);
    }
}

/// Settings for the Meta API that are there are kept as they are; a model that
/// is not set is the default one.
pub proof fn law_settings_are_kept_as_they_are(env: EnvView, url: Seq<char>, key: Seq<char>)
    requires
        env.base_url == Some(url),
        env.api_key == Some(key),
        !is_missing(Some(url)),
        !is_missing(Some(key)),
    ensures
        meta_api_from(env) matches Ok(c) && c.base_url == url && c.api_key == key,
        env.model matches Some(m) ==> (meta_api_from(env)->Ok_0).model == m,
        env.model is None ==> (meta_api_from(env)->Ok_0).model == "muse-spark-1.2"@,
{
}

/// The message for missing settings says which they are and what to do.
pub proof fn law_the_message_for_missing_settings(env: EnvView)
    ensures
        ({
            let advice =
                " (see .env.example), or set MUSED_BACKEND=local-cli to use the local CLI with no key"@;
            let url = is_missing(env.base_url);
            let key = is_missing(env.api_key);
            &&& url && key ==> meta_api_from(env)->Err_0 == "missing META_BASE_URL and META_API_KEY"@
                + " — set "@ + "them"@ + advice
            &&& url && !key ==> meta_api_from(env)->Err_0 == "missing META_BASE_URL"@ + " — set "@
                + "it"@ + advice
            &&& !url && key ==> meta_api_from(env)->Err_0 == "missing META_API_KEY"@ + " — set "@
                + "it"@ + advice
        }),
{
    reveal_strlit("missing META_BASE_URL and META_API_KEY");
    reveal_strlit("missing META_BASE_URL");
    reveal_strlit("missing META_API_KEY");
    reveal_strlit("missing ");
    reveal_strlit("META_BASE_URL");
    reveal_strlit("META_API_KEY");
    reveal_strlit(" and ");
    assert("missing META_BASE_URL and META_API_KEY"@ =~= "missing "@ + ("META_BASE_URL"@ + " and "@
        + "META_API_KEY"@));
    assert("missing META_BASE_URL"@ =~= "missing "@ + "META_BASE_URL"@);
    assert("missing META_API_KEY"@ =~= "missing "@ + "META_API_KEY"@);
}

/// Each backend is selected by its own name, the Meta API also where no name is
/// given; any other name is refused, and quoted as it was set.
pub proof fn law_a_backend_is_selected_by_its_name(env: EnvView, chosen: Seq<char>)
    ensures
        backend_from(env, "local-cli"@) matches Ok(BackendView::LocalCli(secs)) && secs == 300,
        chosen == "meta-api"@ || chosen.len() == 0 ==> match meta_api_from(env) {
            Ok(c) => backend_from(env, chosen) matches Ok(BackendView::MetaApi(got)) && got == c,
            Err(e) => backend_from(env, chosen) matches Err(got) && got == e,
        },
        chosen != "local-cli"@ && chosen != "meta-api"@ && chosen.len() > 0 ==> (
        backend_from(env, chosen) matches Err(e) && e == "unknown MUSED_BACKEND="@
            + crate::text::debug_text(
            match env.backend {
                Some(raw) => raw,
                None => Seq::empty(),
            },
        ) + " (expected meta-api or local-cli)"@),
        env.backend matches Some(raw) ==> backend_setting(env) == raw,
        env.backend is None ==> backend_setting(env).len() == 0,
{
    reveal_strlit("local-cli");
    reveal_strlit("meta-api");
    assert("local-cli"@.len() == 9 && "meta-api"@.len() == 8);
}

/// A chat that failed is reported with its reason.
pub proof fn law_a_failed_chat_gives_its_reason(e: String)
    ensures
        chat_failure_message(ChatFailure::Request(e)) == "request failed: "@ + e@,
        chat_failure_message(ChatFailure::Refused(e)) == "API error: "@ + e@,
        chat_failure_message(ChatFailure::Stream(e)) == "stream error: "@ + e@,
{
    reveal_strlit("request failed");
    reveal_strlit("request failed: ");
    reveal_strlit("API error");
    reveal_strlit("API error: ");
    reveal_strlit("stream error");
    reveal_strlit("stream error: ");
    reveal_strlit(": ");
    assert("request failed: "@ =~= "request failed"@ + ": "@);
    assert("API error: "@ =~= "API error"@ + ": "@);
    assert("stream error: "@ =~= "stream error"@ + ": "@);
}

/// Settings, clients and outcomes are read as they are.
pub proof fn law_settings_are_read_as_they_are(
    env: Env,
    client: MetaApiClient,
    cli: LocalCliClient,
    e: String,
)
    ensures
        env@.backend == option_string(env.backend),
        env@.base_url == option_string(env.base_url),
        env@.api_key == option_string(env.api_key),
        env@.model == option_string(env.model),
        client@.base_url == client.base_url@,
        client@.api_key == client.api_key@,
        client@.model == client.model@,
        ModelBackend::MetaApi(client)@ == BackendView::MetaApi(client@),
        ModelBackend::LocalCli(cli)@ == BackendView::LocalCli(cli@),
        meta_api_outcome(Ok(client)) == Ok::<MetaApiView, Seq<char>>(client@),
        meta_api_outcome(Err(e)) == Err::<MetaApiView, Seq<char>>(e@),
        backend_outcome(Ok(ModelBackend::MetaApi(client))) == Ok::<BackendView, Seq<char>>(
            BackendView::MetaApi(client@),
        ),
        backend_outcome(Ok(ModelBackend::LocalCli(cli))) == Ok::<BackendView, Seq<char>>(
            BackendView::LocalCli(cli@),
        ),
        backend_outcome(Err(e)) == Err::<BackendView, Seq<char>>(e@),
{
}

} // verus!
