//! Webhooks as they are managed: what a form may say, and what is told of them.

use crate::json::{json_int, json_text_or_null, list_models, text_or_null, Json, JsonModel};
use crate::ordered::with_entry;
use crate::text::{
    copy_text, in_one_piece, join, joined, last_piece, opt_text, pieces, split, starts_with, texts,
    trim, trimmed, trimming_is_idempotent,
};
use vstd::prelude::*;

verus! {

/// A webhook as it is stored. The events are a JSON array.
#[derive(Debug, Clone, PartialEq, Eq)]
pub struct WebhookCallback {
    pub id: i64,
    pub name: String,
    pub url: String,
    pub events: String,
    pub secret_header_name: Option<String>,
    pub secret_header_value: Option<String>,
    pub enabled: bool,
    pub created_at: String,
}

/// A webhook to be stored.
#[derive(Debug, Clone, PartialEq, Eq)]
pub struct NewWebhookCallback {
    pub name: String,
    pub url: String,
    pub events: String,
    pub secret_header_name: Option<String>,
    pub secret_header_value: Option<String>,
}

/// The events of a webhook that names none.
pub const DEFAULT_EVENTS: &'static str = "[\"completion\"]";

// ---------------------------------------------------------------------------
// The API
// ---------------------------------------------------------------------------

#[derive(Debug, Clone, PartialEq, Eq)]
pub struct CreateWebhookJson {
    pub name: String,
    pub url: String,
    pub events: Option<String>,
    pub secret_header_name: Option<String>,
    pub secret_header_value: Option<String>,
}

impl CreateWebhookJson {
    /// The webhook that is asked for.
    pub fn new_webhook(self) -> (r: NewWebhookCallback)
        ensures
            r.name == self.name,
            r.url == self.url,
            r.events@ == match self.events {
                Some(e) => e@,
                None => DEFAULT_EVENTS@,
            },
            r.secret_header_name == self.secret_header_name,
            r.secret_header_value == self.secret_header_value,
    {
        let events = match self.events {
            Some(e) => e,
            None => DEFAULT_EVENTS.to_owned(),
        };
        NewWebhookCallback {
            name: self.name,
            url: self.url,
            events,
            secret_header_name: self.secret_header_name,
            secret_header_value: self.secret_header_value,
        }
    }
}

/// A webhook as it is told. The secret is not.
#[derive(Debug, Clone, PartialEq, Eq)]
pub struct WebhookResponse {
    pub id: i64,
    pub name: String,
    pub url: String,
    pub events: String,
    pub secret_header_name: Option<String>,
    pub enabled: bool,
    pub created_at: String,
}

impl From<WebhookCallback> for WebhookResponse {
    fn from(w: WebhookCallback) -> (r: WebhookResponse) {
        WebhookResponse {
            id: w.id,
            name: w.name,
            url: w.url,
            events: w.events,
            secret_header_name: w.secret_header_name,
            enabled: w.enabled,
            created_at: w.created_at,
        }
    }
}

impl vstd::std_specs::convert::FromSpecImpl<WebhookCallback> for WebhookResponse {
    open spec fn obeys_from_spec() -> bool {
        true
    }

    open spec fn from_spec(w: WebhookCallback) -> WebhookResponse {
        told(w)
    }
}

impl WebhookResponse {
    pub open spec fn object(self) -> JsonModel {
        let o = with_entry(Seq::empty(), "id"@, JsonModel::Int(self.id as int));
        let o = with_entry(o, "name"@, JsonModel::Str(self.name@));
        let o = with_entry(o, "url"@, JsonModel::Str(self.url@));
        let o = with_entry(o, "events"@, JsonModel::Str(self.events@));
        let o = with_entry(o, "secret_header_name"@, text_or_null(opt_text(self.secret_header_name)));
        let o = with_entry(o, "enabled"@, JsonModel::Bool(self.enabled));
        JsonModel::Obj(with_entry(o, "created_at"@, JsonModel::Str(self.created_at@)))
    }

    pub fn to_json(&self) -> (r: Json)
        ensures
            r.model() == self.object(),
            r.wf(),
    {
        Json::object().with("id", json_int(self.id)).with(
            "name",
            Json::Str(self.name.clone()),
        ).with("url", Json::Str(self.url.clone())).with(
            "events",
            Json::Str(self.events.clone()),
        ).with("secret_header_name", json_text_or_null(&self.secret_header_name)).with(
            "enabled",
            Json::Bool(self.enabled),
        ).with("created_at", Json::Str(self.created_at.clone()))
    }
}

/// A stored webhook as it is told.
pub open spec fn told(w: WebhookCallback) -> WebhookResponse {
    WebhookResponse {
        id: w.id,
        name: w.name,
        url: w.url,
        events: w.events,
        secret_header_name: w.secret_header_name,
        enabled: w.enabled,
        created_at: w.created_at,
    }
}

pub open spec fn webhook_objects(rows: Seq<WebhookCallback>) -> Seq<JsonModel> {
    Seq::new(rows.len(), |i: int| told(rows[i]).object())
}

fn tell(w: &WebhookCallback) -> (r: Json)
    ensures
        r.model() == told(*w).object(),
        r.wf(),
{
    let response = WebhookResponse {
        id: w.id,
        name: w.name.clone(),
        url: w.url.clone(),
        events: w.events.clone(),
        secret_header_name: copy_text(&w.secret_header_name),
        enabled: w.enabled,
        created_at: w.created_at.clone(),
    };
    response.to_json()
}

/// The webhooks as the API and the page list them.
pub fn webhooks_body(rows: &Vec<WebhookCallback>) -> (r: Json)
    ensures
        r.model() == JsonModel::Arr(webhook_objects(rows@)),
        r.wf(),
{
    let mut out: Vec<Json> = Vec::new();
    let mut i: usize = 0;
    while i < rows.len()
        invariant
            i <= rows@.len(),
            out@.len() == i,
            forall|k: int|
                0 <= k < i ==> (#[trigger] out@[k]).model() == told(rows@[k]).object()
                    && out@[k].wf(),
        decreases rows@.len() - i,
    {
        out.push(tell(&rows[i]));
        i += 1;
    }
    proof {
        Json::lemma_array_wf(out);
        assert(list_models(out@) =~= webhook_objects(rows@));
    }
    Json::Arr(out)
}

// ---------------------------------------------------------------------------
// The form
// ---------------------------------------------------------------------------

#[derive(Debug, Clone, PartialEq, Eq)]
pub struct CreateWebhookForm {
    pub name: String,
    pub url: String,
    pub events: Option<String>,
    pub secret_header_name: Option<String>,
    pub secret_header_value: Option<String>,
}

pub open spec fn quote_event() -> spec_fn(Seq<char>) -> Seq<char> {
    |e: Seq<char>| "\""@ + trimmed(e) + "\""@
}

/// The events that a form names: an array is kept, names with commas between
/// them become one, and where none is named completions are meant.
pub open spec fn events_asked(events: Option<Seq<char>>) -> Seq<char> {
    match events {
        Some(raw) => {
            let t = trimmed(raw);
            if t.len() == 0 {
                DEFAULT_EVENTS@
            } else if t[0] == '[' {
                t
            } else {
                "["@ + joined(pieces(t, ',', ',').map_values(quote_event()), ","@) + "]"@
            }
        },
        None => DEFAULT_EVENTS@,
    }
}

fn read_events(events: &Option<String>) -> (r: String)
    ensures
        r@ == events_asked(opt_text(*events)),
{
    let raw = match events {
        Some(raw) => raw.as_str(),
        None => {
            return DEFAULT_EVENTS.to_owned();
        },
    };
    let t = trim(raw);
    if t.is_empty() {
        return DEFAULT_EVENTS.to_owned();
    }
    proof {
        reveal_strlit("[");
        assert("["@ =~= seq!['[']);
        assert(t@.take(1) =~= seq![t@[0]]);
        assert(seq![t@[0]][0] == t@[0] && seq!['['][0] == '[');
    }
    if starts_with(t, "[") {
        return t.to_owned();
    }
    let parts = split(t, ',', ',');
    let mut quoted: Vec<String> = Vec::new();
    let mut i: usize = 0;
    while i < parts.len()
        invariant
            i <= parts@.len(),
            quoted@.len() == i,
            forall|k: int|
                0 <= k < i ==> (#[trigger] quoted@[k])@ == "\""@ + trimmed(parts@[k]@) + "\""@,
        decreases parts@.len() - i,
    {
        let q = "\"".to_owned().concat(trim(parts[i].as_str())).concat("\"");
        quoted.push(q);
        i += 1;
    }
    assert(texts(quoted@) =~= texts(parts@).map_values(quote_event()));
    "[".to_owned().concat(join(&quoted, ",").as_str()).concat("]")
}

/// A header field that is kept as it stands unless it is blank.
pub open spec fn kept_header(s: Option<Seq<char>>) -> Option<Seq<char>> {
    match s {
        Some(t) => if trimmed(t).len() == 0 {
            None
        } else {
            Some(t)
        },
        None => None,
    }
}

fn keep_header(s: &Option<String>) -> (r: Option<String>)
    ensures
        opt_text(r) == kept_header(opt_text(*s)),
{
    match s {
        Some(t) => if trim(t.as_str()).is_empty() {
            None
        } else {
            copy_text(s)
        },
        None => None,
    }
}

impl CreateWebhookForm {
    /// The webhook that the form asks for; none where it has no name or no URL.
    pub fn new_webhook(&self) -> (r: Option<NewWebhookCallback>)
        ensures
            r is Some <==> trimmed(self.name@).len() > 0 && trimmed(self.url@).len() > 0,
            r matches Some(w) ==> {
                &&& w.name@ == trimmed(self.name@)
                &&& w.url@ == trimmed(self.url@)
                &&& w.events@ == events_asked(opt_text(self.events))
                &&& opt_text(w.secret_header_name) == kept_header(opt_text(self.secret_header_name))
                &&& opt_text(w.secret_header_value) == kept_header(
                    opt_text(self.secret_header_value),
                )
            },
    {
        let name = trim(self.name.as_str());
        let url = trim(self.url.as_str());
        if name.is_empty() || url.is_empty() {
            return None;
        }
        Some(
            NewWebhookCallback {
                name: name.to_owned(),
                url: url.to_owned(),
                events: read_events(&self.events),
                secret_header_name: keep_header(&self.secret_header_name),
                secret_header_value: keep_header(&self.secret_header_value),
            },
        )
    }
}

/// A webhook is told by name, in the order of the rows, all but the secret that it is sent.
pub proof fn webhooks_are_told_without_their_secret(rows: Seq<WebhookCallback>, i: int)
    requires
        0 <= i < rows.len(),
    ensures
        webhook_objects(rows).len() == rows.len(),
        webhook_objects(rows)[i].at("id"@) == JsonModel::Int(rows[i].id as int),
        webhook_objects(rows)[i].at("name"@) == JsonModel::Str(rows[i].name@),
        webhook_objects(rows)[i].at("url"@) == JsonModel::Str(rows[i].url@),
        webhook_objects(rows)[i].at("events"@) == JsonModel::Str(rows[i].events@),
        webhook_objects(rows)[i].at("secret_header_name"@) == match rows[i].secret_header_name {
            Some(t) => JsonModel::Str(t@),
            None => JsonModel::Null,
        },
        webhook_objects(rows)[i].at("enabled"@) == JsonModel::Bool(rows[i].enabled),
        webhook_objects(rows)[i].at("created_at"@) == JsonModel::Str(rows[i].created_at@),
        webhook_objects(rows)[i].field("secret_header_value"@) is None,
{
    broadcast use {
        crate::ordered::entries_are_found,
        crate::ordered::nothing_is_found_in_nothing,
    };

    reveal_strlit("id");
    reveal_strlit("name");
    reveal_strlit("url");
    reveal_strlit("events");
    reveal_strlit("secret_header_name");
    reveal_strlit("enabled");
    reveal_strlit("created_at");
    reveal_strlit("secret_header_value");
    assert("id"@.len() == 2);
    assert("name"@.len() == 4);
    assert("url"@.len() == 3);
    assert("events"@.len() == 6);
    assert("secret_header_name"@.len() == 18);
    assert("enabled"@.len() == 7);
    assert("created_at"@.len() == 10);
    assert("secret_header_value"@.len() == 19);
}

/// Events are taken as they are typed where they are a list already, put into one where they
/// are names between commas, and are completions where nothing is typed; a blank header is
/// none.
pub proof fn events_are_listed(raw: Seq<char>)
    ensures
        events_asked(None) == "[\"completion\"]"@,
        trimmed(raw).len() == 0 ==> events_asked(Some(raw)) == "[\"completion\"]"@,
        trimmed(raw).len() > 0 && trimmed(raw)[0] == '[' ==> events_asked(Some(raw)) == trimmed(raw),
        trimmed(raw).len() > 0 && trimmed(raw)[0] != '[' && in_one_piece(trimmed(raw), ',', ',')
            ==> events_asked(Some(raw)) == "["@ + ("\""@ + trimmed(raw) + "\""@) + "]"@,
        kept_header(None) is None,
        trimmed(raw).len() == 0 ==> kept_header(Some(raw)) is None,
        trimmed(raw).len() > 0 ==> kept_header(Some(raw)) == Some(raw),
{
    let t = trimmed(raw);
    if t.len() > 0 && t[0] != '[' && in_one_piece(t, ',', ',') {
        last_piece(Seq::empty(), ',', ',', t);
        trimming_is_idempotent(raw);
        let p = pieces(t, ',', ',').map_values(quote_event());
        assert(p.len() == 1);
        assert(p[0] == quote_event()(t));
    }
}

} // verus!
