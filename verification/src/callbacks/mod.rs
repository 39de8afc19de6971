//! What leaves the router after a completion.

use crate::json::{json_int, json_real, real_or_null, Json, JsonModel};
use crate::ordered::with_entry;
use crate::records::Usd;
use crate::text::same;
use vstd::prelude::*;

verus! {

/// One completion, as it is told to callbacks.
#[derive(Debug, PartialEq, Eq)]
pub struct CallbackEvent {
    pub trace_id: String,
    pub user_id: i64,
    pub model: String,
    pub provider: String,
    pub input: Json,
    pub output: String,
    pub prompt_tokens: u32,
    pub completion_tokens: u32,
    pub cost_usd: Usd,
    pub latency_ms: i64,
}

impl CallbackEvent {
    pub open spec fn wf(&self) -> bool {
        self.input.wf()
    }
}

/// A webhook: where it is, which events it wants, and a secret header.
pub struct WebhookBackendConfig {
    pub name: String,
    pub url: String,
    pub events: Vec<String>,
    pub secret_header_name: Option<String>,
    pub secret_header_value: Option<String>,
}

pub struct WebhookBackend {
    pub config: WebhookBackendConfig,
}

/// Whether an event list asks for completions: by name, by a wildcard, or by
/// naming nothing at all.
pub open spec fn wants_completions(events: Seq<String>) -> bool {
    events.len() == 0 || exists|i: int|
        0 <= i < events.len() && ((#[trigger] events[i])@ == "*"@ || events[i]@ == "completion"@)
}

impl WebhookBackend {
    pub fn new(config: WebhookBackendConfig) -> (r: WebhookBackend)
        ensures
            r.config == config,
    {
        WebhookBackend { config }
    }

    /// Whether completions are sent to this webhook.
    pub fn should_send(&self) -> (r: bool)
        ensures
            r == wants_completions(self.config.events@),
    {
        let events = &self.config.events;
        if events.len() == 0 {
            return true;
        }
        let mut i: usize = 0;
        while i < events.len()
            invariant
                i <= events@.len(),
                events@ == self.config.events@,
                forall|j: int|
                    0 <= j < i ==> (#[trigger] events@[j])@ != "*"@ && events@[j]@ != "completion"@,
            decreases events@.len() - i,
        {
            if same(events[i].as_str(), "*") || same(events[i].as_str(), "completion") {
                return true;
            }
            i += 1;
        }
        false
    }
}

/// The header that a webhook is sent, where both its name and its value are set.
pub fn secret_header(config: &WebhookBackendConfig) -> (r: Option<(String, String)>)
    ensures
        match (config.secret_header_name, config.secret_header_value) {
            (Some(name), Some(value)) => r == Some((name, value)),
            _ => r is None,
        },
{
    match (&config.secret_header_name, &config.secret_header_value) {
        (Some(name), Some(value)) => Some((name.clone(), value.clone())),
        _ => None,
    }
}

/// What a webhook is told: the figures of the completion, never its content.
pub open spec fn webhook_object(e: CallbackEvent) -> JsonModel {
    let o = with_entry(Seq::empty(), "event"@, JsonModel::Str("completion"@));
    let o = with_entry(o, "trace_id"@, JsonModel::Str(e.trace_id@));
    let o = with_entry(o, "user_id"@, JsonModel::Int(e.user_id as int));
    let o = with_entry(o, "model"@, JsonModel::Str(e.model@));
    let o = with_entry(o, "provider"@, JsonModel::Str(e.provider@));
    let o = with_entry(o, "prompt_tokens"@, JsonModel::Int(e.prompt_tokens as int));
    let o = with_entry(o, "completion_tokens"@, JsonModel::Int(e.completion_tokens as int));
    let o = with_entry(o, "cost_usd"@, real_or_null(e.cost_usd.bits));
    JsonModel::Obj(with_entry(o, "latency_ms"@, JsonModel::Int(e.latency_ms as int)))
}

pub fn webhook_payload(e: &CallbackEvent) -> (r: Json)
    requires
        e.wf(),
    ensures
        r.model() == webhook_object(*e),
        r.wf(),
{
    Json::object().with("event", Json::Str("completion".to_owned())).with(
        "trace_id",
        Json::Str(e.trace_id.clone()),
    ).with("user_id", json_int(e.user_id)).with("model", Json::Str(e.model.clone())).with(
        "provider",
        Json::Str(e.provider.clone()),
    ).with("prompt_tokens", Json::PosInt(e.prompt_tokens as u64)).with(
        "completion_tokens",
        Json::PosInt(e.completion_tokens as u64),
    ).with("cost_usd", json_real(e.cost_usd.bits)).with("latency_ms", json_int(e.latency_ms))
}

/// The figures that trace stores are told.
pub open spec fn figures(e: CallbackEvent) -> Seq<(Seq<char>, JsonModel)> {
    let o = with_entry(Seq::empty(), "model"@, JsonModel::Str(e.model@));
    let o = with_entry(o, "provider"@, JsonModel::Str(e.provider@));
    let o = with_entry(o, "prompt_tokens"@, JsonModel::Int(e.prompt_tokens as int));
    let o = with_entry(o, "completion_tokens"@, JsonModel::Int(e.completion_tokens as int));
    let o = with_entry(o, "cost_usd"@, real_or_null(e.cost_usd.bits));
    with_entry(o, "latency_ms"@, JsonModel::Int(e.latency_ms as int))
}

fn figures_json(e: &CallbackEvent) -> (r: Json)
    requires
        e.wf(),
    ensures
        r.model() == JsonModel::Obj(figures(*e)),
        r.wf(),
{
    Json::object().with("model", Json::Str(e.model.clone())).with(
        "provider",
        Json::Str(e.provider.clone()),
    ).with("prompt_tokens", Json::PosInt(e.prompt_tokens as u64)).with(
        "completion_tokens",
        Json::PosInt(e.completion_tokens as u64),
    ).with("cost_usd", json_real(e.cost_usd.bits)).with("latency_ms", json_int(e.latency_ms))
}

/// What LangFuse is told.
pub open spec fn langfuse_object(e: CallbackEvent) -> JsonModel {
    let o = with_entry(Seq::empty(), "id"@, JsonModel::Str(e.trace_id@));
    let o = with_entry(o, "name"@, JsonModel::Str("modelrouter.completion"@));
    let o = with_entry(o, "input"@, e.input.model());
    let o = with_entry(o, "output"@, JsonModel::Str(e.output@));
    JsonModel::Obj(
        with_entry(
            o,
            "metadata"@,
            JsonModel::Obj(
                with_entry(figures(e), "user_id"@, JsonModel::Int(e.user_id as int)),
            ),
        ),
    )
}

pub fn langfuse_payload(e: &CallbackEvent) -> (r: Json)
    requires
        e.wf(),
    ensures
        r.model() == langfuse_object(*e),
        r.wf(),
{
    let metadata = figures_json(e).with("user_id", json_int(e.user_id));
    Json::object().with("id", Json::Str(e.trace_id.clone())).with(
        "name",
        Json::Str("modelrouter.completion".to_owned()),
    ).with("input", e.input.copied()).with("output", Json::Str(e.output.clone())).with(
        "metadata",
        metadata,
    )
}

/// What LangSmith is told.
pub open spec fn langsmith_object(e: CallbackEvent, project: Seq<char>) -> JsonModel {
    let o = with_entry(Seq::empty(), "id"@, JsonModel::Str(e.trace_id@));
    let o = with_entry(o, "name"@, JsonModel::Str("modelrouter.completion"@));
    let o = with_entry(o, "run_type"@, JsonModel::Str("llm"@));
    let o = with_entry(
        o,
        "inputs"@,
        JsonModel::Obj(with_entry(Seq::empty(), "messages"@, e.input.model())),
    );
    let o = with_entry(
        o,
        "outputs"@,
        JsonModel::Obj(with_entry(Seq::empty(), "content"@, JsonModel::Str(e.output@))),
    );
    JsonModel::Obj(
        with_entry(
            o,
            "extra"@,
            JsonModel::Obj(with_entry(figures(e), "session_name"@, JsonModel::Str(project))),
        ),
    )
}

pub fn langsmith_payload(e: &CallbackEvent, project: &str) -> (r: Json)
    requires
        e.wf(),
    ensures
        r.model() == langsmith_object(*e, project@),
        r.wf(),
{
    let extra = figures_json(e).with("session_name", Json::Str(project.to_owned()));
    let inputs = Json::object().with("messages", e.input.copied());
    let outputs = Json::object().with("content", Json::Str(e.output.clone()));
    Json::object().with("id", Json::Str(e.trace_id.clone())).with(
        "name",
        Json::Str("modelrouter.completion".to_owned()),
    ).with("run_type", Json::Str("llm".to_owned())).with("inputs", inputs).with(
        "outputs",
        outputs,
    ).with("extra", extra)
}

/// A webhook is told of a call by name: who asked, what answered, how many tokens went in and
/// came out, what it cost and how long it took.
pub proof fn webhooks_are_told_of_the_call(e: CallbackEvent)
    ensures
        webhook_object(e).at("event"@) == JsonModel::Str("completion"@),
        webhook_object(e).at("trace_id"@) == JsonModel::Str(e.trace_id@),
        webhook_object(e).at("user_id"@) == JsonModel::Int(e.user_id as int),
        webhook_object(e).at("model"@) == JsonModel::Str(e.model@),
        webhook_object(e).at("provider"@) == JsonModel::Str(e.provider@),
        webhook_object(e).at("prompt_tokens"@) == JsonModel::Int(e.prompt_tokens as int),
        webhook_object(e).at("completion_tokens"@) == JsonModel::Int(e.completion_tokens as int),
        webhook_object(e).at("cost_usd"@) == real_or_null(e.cost_usd.bits),
        webhook_object(e).at("latency_ms"@) == JsonModel::Int(e.latency_ms as int),
{
    broadcast use {
        crate::ordered::entries_are_found,
        crate::ordered::nothing_is_found_in_nothing,
    };

    reveal_strlit("event");
    reveal_strlit("trace_id");
    reveal_strlit("user_id");
    reveal_strlit("model");
    reveal_strlit("provider");
    reveal_strlit("prompt_tokens");
    reveal_strlit("completion_tokens");
    reveal_strlit("cost_usd");
    reveal_strlit("latency_ms");
    assert("event"@.len() == 5 && "event"@[0] == 'e');
    assert("trace_id"@.len() == 8 && "trace_id"@[0] == 't');
    assert("user_id"@.len() == 7);
    assert("model"@.len() == 5 && "model"@[0] == 'm');
    assert("provider"@.len() == 8 && "provider"@[0] == 'p');
    assert("prompt_tokens"@.len() == 13);
    assert("completion_tokens"@.len() == 17);
    assert("cost_usd"@.len() == 8 && "cost_usd"@[0] == 'c');
    assert("latency_ms"@.len() == 10);
}

/// A trace shows what was asked and what was answered in their own places, with the figures
/// of the call beside them.
pub proof fn traces_show_question_and_answer(e: CallbackEvent, project: Seq<char>)
    ensures
        langfuse_object(e).at("id"@) == JsonModel::Str(e.trace_id@),
        langfuse_object(e).at("name"@) == JsonModel::Str("modelrouter.completion"@),
        langfuse_object(e).at("input"@) == e.input.model(),
        langfuse_object(e).at("output"@) == JsonModel::Str(e.output@),
        langfuse_object(e).at("metadata"@).at("user_id"@) == JsonModel::Int(e.user_id as int),
        langfuse_object(e).at("metadata"@).at("model"@) == JsonModel::Str(e.model@),
        langfuse_object(e).at("metadata"@).at("provider"@) == JsonModel::Str(e.provider@),
        langfuse_object(e).at("metadata"@).at("prompt_tokens"@) == JsonModel::Int(e.prompt_tokens as int),
        langfuse_object(e).at("metadata"@).at("completion_tokens"@) == JsonModel::Int(e.completion_tokens as int),
        langfuse_object(e).at("metadata"@).at("cost_usd"@) == real_or_null(e.cost_usd.bits),
        langfuse_object(e).at("metadata"@).at("latency_ms"@) == JsonModel::Int(e.latency_ms as int),
        langsmith_object(e, project).at("id"@) == JsonModel::Str(e.trace_id@),
        langsmith_object(e, project).at("name"@) == JsonModel::Str("modelrouter.completion"@),
        langsmith_object(e, project).at("run_type"@) == JsonModel::Str("llm"@),
        langsmith_object(e, project).at("inputs"@).at("messages"@) == e.input.model(),
        langsmith_object(e, project).at("outputs"@).at("content"@) == JsonModel::Str(e.output@),
        langsmith_object(e, project).at("extra"@).at("session_name"@) == JsonModel::Str(project),
        langsmith_object(e, project).at("extra"@).at("model"@) == JsonModel::Str(e.model@),
        langsmith_object(e, project).at("extra"@).at("provider"@) == JsonModel::Str(e.provider@),
        langsmith_object(e, project).at("extra"@).at("prompt_tokens"@) == JsonModel::Int(e.prompt_tokens as int),
        langsmith_object(e, project).at("extra"@).at("completion_tokens"@) == JsonModel::Int(e.completion_tokens as int),
        langsmith_object(e, project).at("extra"@).at("cost_usd"@) == real_or_null(e.cost_usd.bits),
        langsmith_object(e, project).at("extra"@).at("latency_ms"@) == JsonModel::Int(e.latency_ms as int),
{
    broadcast use {
        crate::ordered::entries_are_found,
        crate::ordered::nothing_is_found_in_nothing,
    };

    reveal_strlit("id");
    reveal_strlit("name");
    reveal_strlit("input");
    reveal_strlit("output");
    reveal_strlit("metadata");
    reveal_strlit("user_id");
    reveal_strlit("model");
    reveal_strlit("provider");
    reveal_strlit("prompt_tokens");
    reveal_strlit("completion_tokens");
    reveal_strlit("cost_usd");
    reveal_strlit("latency_ms");
    reveal_strlit("run_type");
    reveal_strlit("inputs");
    reveal_strlit("messages");
    reveal_strlit("outputs");
    reveal_strlit("content");
    reveal_strlit("extra");
    reveal_strlit("session_name");
    assert("id"@.len() == 2);
    assert("name"@.len() == 4);
    assert("input"@.len() == 5 && "input"@[0] == 'i');
    assert("output"@.len() == 6 && "output"@[0] == 'o');
    assert("metadata"@.len() == 8 && "metadata"@[3] == 'a');
    assert("user_id"@.len() == 7 && "user_id"@[0] == 'u');
    assert("model"@.len() == 5 && "model"@[0] == 'm');
    assert("provider"@.len() == 8 && "provider"@[3] == 'v');
    assert("prompt_tokens"@.len() == 13);
    assert("completion_tokens"@.len() == 17);
    assert("cost_usd"@.len() == 8 && "cost_usd"@[3] == 't');
    assert("latency_ms"@.len() == 10);
    assert("run_type"@.len() == 8 && "run_type"@[3] == '_');
    assert("inputs"@.len() == 6 && "inputs"@[0] == 'i');
    assert("messages"@.len() == 8 && "messages"@[3] == 's');
    assert("outputs"@.len() == 7 && "outputs"@[0] == 'o');
    assert("content"@.len() == 7 && "content"@[0] == 'c');
    assert("extra"@.len() == 5 && "extra"@[0] == 'e');
    assert("session_name"@.len() == 12);
}

/// A webhook that names no event hears of completions, and so does one that names them or
/// asks for everything; one that names only others does not.
pub proof fn webhooks_hear_what_they_ask_for(events: Seq<String>, i: int)
    ensures
        events.len() == 0 ==> wants_completions(events),
        0 <= i < events.len() && (events[i]@ == "*"@ || events[i]@ == "completion"@) ==> wants_completions(
            events,
        ),
        events.len() > 0 && (forall|j: int|
            0 <= j < events.len() ==> (#[trigger] events[j])@ != "*"@ && events[j]@ != "completion"@)
            ==> !wants_completions(events),
{
}

} // verus!
