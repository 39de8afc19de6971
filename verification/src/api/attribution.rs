//! Caller-supplied request attribution.
//!
//! The router knows who paid (user, API key) and which key's project the spend
//! belongs to. Attribution adds what the *caller* considers the unit of work: an
//! engagement, a job, a run. It is metadata only: nothing that routes, prices or
//! caches a request reads it.
//!
//! It comes in the body field `attribution`, an object with the optional members
//! `correlation_id`, `tags` and `project`; headers fill in, field by field, what
//! the body leaves out.

use crate::api::error::ApiError;
use crate::api::headers::{header_str, stated_header};
use crate::json::{entry_models, Json, JsonModel};
use crate::ordered::{
    ascending, lemma_with_entry_ascends, lemma_with_entry_members, lookup, with_entry,
};
use crate::text_map::{map_text, TextMap};
use crate::text::{
    ascii_alphanumeric, byte_count, byte_len, chars_of, copy_text, i64_text, int_text, is_ascii_alphanumeric,
    nat_text, opt_text, same, trim, trimmed, u64_text,
};
use axum::http::{HeaderMap, HeaderValue};
use vstd::prelude::*;

verus! {

/// Body field carrying attribution.
pub const BODY_FIELD: &'static str = "attribution";

/// Header carrying the correlation id.
pub const CORRELATION_HEADER: &'static str = "x-attribution-correlation-id";

/// Header carrying the tag map as a JSON object.
pub const TAGS_HEADER: &'static str = "x-attribution-tags";

/// Header carrying a project for this request alone, so that one key can report
/// many projects.
pub const PROJECT_HEADER: &'static str = "x-project";

/// Maximum length of a project name, in characters.
pub const MAX_PROJECT_LEN: usize = 128;

/// Maximum length of a correlation id, in characters.
pub const MAX_CORRELATION_LEN: usize = 128;

/// Maximum number of tag entries on one request.
pub const MAX_TAGS: usize = 8;

/// Maximum length of a tag key, in characters.
pub const MAX_TAG_KEY_LEN: usize = 64;

/// Maximum length of a tag value, in characters.
pub const MAX_TAG_VALUE_LEN: usize = 128;

/// Maximum size of the tag map in its JSON form, in bytes.
pub const MAX_TAGS_BYTES: usize = 1024;

// ---------------------------------------------------------------------------
// Attribution
// ---------------------------------------------------------------------------

/// Validated attribution for one request.
#[derive(Debug, PartialEq, Eq)]
pub struct Attribution {
    /// Opaque caller-side id for this request, such as a job or run id.
    pub correlation_id: Option<String>,
    /// Free-form key/value tags.
    pub tags: TextMap,
    /// A project for this request alone; without one the API key's applies.
    pub project: Option<String>,
}

/// The content of an attribution.
pub struct AttributionModel {
    pub correlation_id: Option<Seq<char>>,
    pub tags: Seq<(Seq<char>, Seq<char>)>,
    pub project: Option<Seq<char>>,
}

impl View for Attribution {
    type V = AttributionModel;

    open spec fn view(&self) -> AttributionModel {
        AttributionModel {
            correlation_id: opt_text(self.correlation_id),
            tags: self.tags@,
            project: opt_text(self.project),
        }
    }
}

impl Clone for Attribution {
    fn clone(&self) -> (r: Attribution)
        ensures
            r@ == self@,
    {
        Attribution {
            correlation_id: copy_text(&self.correlation_id),
            tags: self.tags.clone(),
            project: copy_text(&self.project),
        }
    }
}

/// Rejected attribution, answered with a 400.
#[derive(Debug, Clone, PartialEq, Eq)]
pub struct AttributionError(pub String);

impl vstd::std_specs::convert::FromSpecImpl<AttributionError> for ApiError {
    open spec fn obeys_from_spec() -> bool {
        true
    }

    open spec fn from_spec(e: AttributionError) -> ApiError {
        ApiError::InvalidRequest(e.0)
    }
}

impl From<AttributionError> for ApiError {
    fn from(e: AttributionError) -> (r: ApiError) {
        ApiError::InvalidRequest(e.0)
    }
}

impl Default for Attribution {
    fn default() -> (r: Attribution)
        ensures
            r@ == no_attribution(),
    {
        Attribution { correlation_id: None, tags: TextMap::new(), project: None }
    }
}

/// The attribution of a request that says nothing.
pub open spec fn no_attribution() -> AttributionModel {
    AttributionModel { correlation_id: None, tags: Seq::empty(), project: None }
}

// ---------------------------------------------------------------------------
// The rules for each part: the accepted value, or the message that rejects it
// ---------------------------------------------------------------------------

/// Printable ASCII: enough for ids and slugs, and safe to echo into logs.
pub open spec fn safe_char(c: char) -> bool {
    ' ' <= c <= '~'
}

pub open spec fn safe(s: Seq<char>) -> bool {
    forall|i: int| 0 <= i < s.len() ==> safe_char(#[trigger] s[i])
}

/// The characters of a tag key: none of them needs escaping inside a JSON path.
pub open spec fn tag_key_char(c: char) -> bool {
    ascii_alphanumeric(c) || c == '_' || c == '-' || c == '.' || c == ':'
}

pub open spec fn safe_tag_key(s: Seq<char>) -> bool {
    s.len() > 0 && forall|i: int| 0 <= i < s.len() ==> tag_key_char(#[trigger] s[i])
}

/// A project name is what is left after trimming: not empty, not overlong.
pub open spec fn checked_project(raw: Seq<char>) -> Result<Seq<char>, Seq<char>> {
    let v = trimmed(raw);
    if v.len() == 0 {
        Err("attribution.project must not be empty"@)
    } else if v.len() > MAX_PROJECT_LEN {
        Err(
            "attribution.project must be at most "@ + nat_text(MAX_PROJECT_LEN as nat)
                + " characters"@,
        )
    } else {
        Ok(v)
    }
}

/// A correlation id is what is left after trimming: not empty, not overlong,
/// printable. `field` names the input that is at fault.
pub open spec fn checked_correlation_id(field: Seq<char>, raw: Seq<char>) -> Result<
    Seq<char>,
    Seq<char>,
> {
    let v = trimmed(raw);
    if v.len() == 0 {
        Err(field + " must not be empty"@)
    } else if v.len() > MAX_CORRELATION_LEN {
        Err(field + " must be at most "@ + nat_text(MAX_CORRELATION_LEN as nat) + " characters"@)
    } else if !safe(v) {
        Err(field + " contains unsupported characters"@)
    } else {
        Ok(v)
    }
}

/// The text of a tag value: a string without the white space around it, a
/// number or a boolean as JSON writes it, and nothing for any other value.
pub open spec fn tag_value_text(v: JsonModel) -> Option<Seq<char>> {
    match v {
        JsonModel::Str(s) => Some(trimmed(s)),
        JsonModel::Int(n) => Some(int_text(n)),
        JsonModel::Float(bits) => Some(crate::json::text_of_json(JsonModel::Float(bits))),
        JsonModel::Bool(b) => Some(
            if b {
                "true"@
            } else {
                "false"@
            },
        ),
        _ => None,
    }
}

/// One tag: its trimmed key and the text of its value.
pub open spec fn checked_tag(raw_key: Seq<char>, v: JsonModel) -> Result<
    (Seq<char>, Seq<char>),
    Seq<char>,
> {
    let key = trimmed(raw_key);
    if key.len() == 0 {
        Err("attribution.tags keys must not be empty"@)
    } else if key.len() > MAX_TAG_KEY_LEN {
        Err(
            "attribution.tags key '"@ + key + "' exceeds "@ + nat_text(MAX_TAG_KEY_LEN as nat)
                + " characters"@,
        )
    } else if !safe_tag_key(key) {
        Err(
            "attribution.tags key '"@ + key
                + "' must contain only letters, digits, '_', '-', '.' or ':'"@,
        )
    } else {
        match tag_value_text(v) {
            None => Err(
                "attribution.tags value for '"@ + key + "' must be a string, number or boolean"@,
            ),
            Some(val) => if val.len() > MAX_TAG_VALUE_LEN {
                Err(
                    "attribution.tags value for '"@ + key + "' exceeds "@ + nat_text(
                        MAX_TAG_VALUE_LEN as nat,
                    ) + " characters"@,
                )
            } else if !safe(val) {
                Err(
                    "attribution.tags value for '"@ + key + "' contains unsupported characters"@,
                )
            } else {
                Ok((key, val))
            },
        }
    }
}

/// The tags of an object's members, one after the other; the first bad one
/// decides.
pub open spec fn collected_tags(entries: Seq<(Seq<char>, JsonModel)>) -> Result<
    Seq<(Seq<char>, Seq<char>)>,
    Seq<char>,
>
    decreases entries.len(),
{
    if entries.len() == 0 {
        Ok(Seq::empty())
    } else {
        match collected_tags(entries.drop_last()) {
            Err(e) => Err(e),
            Ok(tags) => match checked_tag(entries.last().0, entries.last().1) {
                Err(e) => Err(e),
                Ok((key, val)) => Ok(with_entry(tags, key, val)),
            },
        }
    }
}

/// The tags that a JSON value states.
pub open spec fn checked_tags(v: JsonModel) -> Result<Seq<(Seq<char>, Seq<char>)>, Seq<char>> {
    match v {
        JsonModel::Obj(entries) => if entries.len() > MAX_TAGS {
            Err("attribution.tags must have at most "@ + nat_text(MAX_TAGS as nat) + " entries"@)
        } else {
            match collected_tags(entries) {
                Err(e) => Err(e),
                Ok(tags) => if byte_count(map_text(tags)) > MAX_TAGS_BYTES {
                    Err(
                        "attribution.tags must serialise to at most "@ + nat_text(
                            MAX_TAGS_BYTES as nat,
                        ) + " bytes"@,
                    )
                } else {
                    Ok(tags)
                },
            }
        },
        _ => Err("attribution.tags must be an object"@),
    }
}

pub open spec fn known_field(key: Seq<char>) -> bool {
    key == "correlation_id"@ || key == "tags"@ || key == "project"@
}

/// The first key that no attribution has.
pub open spec fn first_unknown(entries: Seq<(Seq<char>, JsonModel)>) -> Option<Seq<char>>
    decreases entries.len(),
{
    if entries.len() == 0 {
        None
    } else if !known_field(entries[0].0) {
        Some(entries[0].0)
    } else {
        first_unknown(entries.drop_first())
    }
}

/// An optional text member: absent or null, a string that `check` accepts, or
/// an error.
pub open spec fn optional_text(
    v: Option<JsonModel>,
    check: spec_fn(Seq<char>) -> Result<Seq<char>, Seq<char>>,
    not_text: Seq<char>,
) -> Result<Option<Seq<char>>, Seq<char>> {
    match v {
        None => Ok(None),
        Some(JsonModel::Null) => Ok(None),
        Some(JsonModel::Str(s)) => match check(s) {
            Ok(t) => Ok(Some(t)),
            Err(e) => Err(e),
        },
        Some(_) => Err(not_text),
    }
}

/// What the value of the body field states.
pub open spec fn stated(v: JsonModel) -> Result<AttributionModel, Seq<char>> {
    match v {
        JsonModel::Obj(entries) => match first_unknown(entries) {
            Some(key) => Err("unknown attribution field: "@ + key),
            None => match optional_text(
                lookup(entries, "correlation_id"@),
                |s: Seq<char>| checked_correlation_id("attribution.correlation_id"@, s),
                "attribution.correlation_id must be a string"@,
            ) {
                Err(e) => Err(e),
                Ok(correlation_id) => match stated_tags(lookup(entries, "tags"@)) {
                    Err(e) => Err(e),
                    Ok(tags) => match optional_text(
                        lookup(entries, "project"@),
                        |s: Seq<char>| checked_project(s),
                        "attribution.project must be a string"@,
                    ) {
                        Err(e) => Err(e),
                        Ok(project) => Ok(AttributionModel { correlation_id, tags, project }),
                    },
                },
            },
        },
        _ => Err("attribution must be an object"@),
    }
}

/// The tags of the body field: none where they are absent or null.
pub open spec fn stated_tags(v: Option<JsonModel>) -> Result<
    Seq<(Seq<char>, Seq<char>)>,
    Seq<char>,
> {
    match v {
        None => Ok(Seq::empty()),
        Some(JsonModel::Null) => Ok(Seq::empty()),
        Some(t) => checked_tags(t),
    }
}

/// What the body states: nothing where the field is absent or null.
pub open spec fn stated_in_body(body: JsonModel) -> Result<AttributionModel, Seq<char>> {
    match body.field(BODY_FIELD@) {
        None => Ok(no_attribution()),
        Some(JsonModel::Null) => Ok(no_attribution()),
        Some(v) => stated(v),
    }
}

/// The tags of the header: the text must be JSON, and state tags.
pub open spec fn tags_of_header(raw: Seq<char>) -> Result<Seq<(Seq<char>, Seq<char>)>, Seq<char>> {
    match crate::json::json_of_text(raw) {
        None => Err("x-attribution-tags must be a JSON object"@),
        Some(v) => checked_tags(v),
    }
}

/// What headers add to what the body states, field by field: only what the body
/// leaves out is read.
pub open spec fn filled(a: AttributionModel, h: HeaderMap<HeaderValue>) -> Result<
    AttributionModel,
    Seq<char>,
> {
    let correlation_id = match (a.correlation_id, stated_header(h, CORRELATION_HEADER@)) {
        (None, Some(raw)) => match checked_correlation_id("attribution.correlation_id"@, raw) {
            Ok(v) => Ok(Some(v)),
            Err(e) => Err(e),
        },
        _ => Ok(a.correlation_id),
    };
    let tags = match stated_header(h, TAGS_HEADER@) {
        Some(raw) => if a.tags.len() == 0 {
            tags_of_header(raw)
        } else {
            Ok(a.tags)
        },
        None => Ok(a.tags),
    };
    let project = match (a.project, stated_header(h, PROJECT_HEADER@)) {
        (None, Some(raw)) => match checked_project(raw) {
            Ok(v) => Ok(Some(v)),
            Err(e) => Err(e),
        },
        _ => Ok(a.project),
    };
    match correlation_id {
        Err(e) => Err(e),
        Ok(correlation_id) => match tags {
            Err(e) => Err(e),
            Ok(tags) => match project {
                Err(e) => Err(e),
                Ok(project) => Ok(AttributionModel { correlation_id, tags, project }),
            },
        },
    }
}

/// The attribution of a request.
pub open spec fn extracted(body: JsonModel, h: HeaderMap<HeaderValue>) -> Result<
    AttributionModel,
    Seq<char>,
> {
    match stated_in_body(body) {
        Err(e) => Err(e),
        Ok(a) => filled(a, h),
    }
}

// ---------------------------------------------------------------------------
// The code
// ---------------------------------------------------------------------------

/// What a validated text, or its rejection, says.
pub open spec fn text_outcome(r: Result<String, AttributionError>) -> Result<Seq<char>, Seq<char>> {
    match r {
        Ok(s) => Ok(s@),
        Err(e) => Err(e.0@),
    }
}

pub open spec fn tags_outcome(r: Result<TextMap, AttributionError>) -> Result<
    Seq<(Seq<char>, Seq<char>)>,
    Seq<char>,
> {
    match r {
        Ok(t) => Ok(t@),
        Err(e) => Err(e.0@),
    }
}

pub open spec fn outcome(r: Result<Attribution, AttributionError>) -> Result<
    AttributionModel,
    Seq<char>,
> {
    match r {
        Ok(a) => Ok(a@),
        Err(e) => Err(e.0@),
    }
}

pub fn is_safe(s: &str) -> (r: bool)
    ensures
        r == safe(s@),
{
    let cs = chars_of(s);
    let mut i: usize = 0;
    while i < cs.len()
        invariant
            i <= cs.len(),
            cs@ == s@,
            forall|j: int| 0 <= j < i ==> safe_char(#[trigger] s@[j]),
        decreases cs.len() - i,
    {
        if !(' ' <= cs[i] && cs[i] <= '~') {
            assert(!safe_char(s@[i as int]));
            return false;
        }
        i += 1;
    }
    true
}

/// Whether a tag key can stand inside a JSON path as it is.
pub fn is_safe_tag_key(s: &str) -> (r: bool)
    ensures
        r == safe_tag_key(s@),
{
    let cs = chars_of(s);
    if cs.len() == 0 {
        return false;
    }
    let mut i: usize = 0;
    while i < cs.len()
        invariant
            i <= cs.len(),
            cs@ == s@,
            forall|j: int| 0 <= j < i ==> tag_key_char(#[trigger] s@[j]),
        decreases cs.len() - i,
    {
        let c = cs[i];
        if !(is_ascii_alphanumeric(c) || c == '_' || c == '-' || c == '.' || c == ':') {
            assert(!tag_key_char(s@[i as int]));
            return false;
        }
        i += 1;
    }
    true
}

/// Validates a project for one request.
pub fn validate_project(raw: &str) -> (r: Result<String, AttributionError>)
    ensures
        text_outcome(r) == checked_project(raw@),
{
    let v = trim(raw);
    if v.is_empty() {
        return Err(AttributionError("attribution.project must not be empty".to_owned()));
    }
    if v.unicode_len() > MAX_PROJECT_LEN {
        let mut msg = "attribution.project must be at most ".to_owned();
        msg.append(u64_text(MAX_PROJECT_LEN as u64).as_str());
        msg.append(" characters");
        return Err(AttributionError(msg));
    }
    Ok(v.to_owned())
}

/// Validates the correlation id of a request.
pub fn validate_correlation_id(raw: &str) -> (r: Result<String, AttributionError>)
    ensures
        text_outcome(r) == checked_correlation_id("attribution.correlation_id"@, raw@),
{
    validate_correlation_id_field("attribution.correlation_id", raw)
}

/// The rules for a correlation id wherever a caller supplies one; `field` names
/// the offending input.
pub fn validate_correlation_id_field(field: &str, raw: &str) -> (r: Result<String, AttributionError>)
    ensures
        text_outcome(r) == checked_correlation_id(field@, raw@),
{
    let v = trim(raw);
    if v.is_empty() {
        return Err(AttributionError(field.to_owned().concat(" must not be empty")));
    }
    if v.unicode_len() > MAX_CORRELATION_LEN {
        let mut msg = field.to_owned();
        msg.append(" must be at most ");
        msg.append(u64_text(MAX_CORRELATION_LEN as u64).as_str());
        msg.append(" characters");
        return Err(AttributionError(msg));
    }
    if !is_safe(v) {
        return Err(AttributionError(field.to_owned().concat(" contains unsupported characters")));
    }
    Ok(v.to_owned())
}

fn tag_text(v: &Json) -> (r: Option<String>)
    requires
        v.wf(),
    ensures
        opt_text(r) == tag_value_text(v.model()),
{
    match v {
        Json::Str(s) => Some(trim(s.as_str()).to_owned()),
        Json::PosInt(n) => Some(u64_text(*n)),
        Json::NegInt(n) => Some(i64_text(*n)),
        Json::Float(_) => Some(v.to_text()),
        Json::Bool(b) => Some(
            if *b {
                "true".to_owned()
            } else {
                "false".to_owned()
            },
        ),
        _ => None,
    }
}

fn validate_tag(k: &str, v: &Json) -> (r: Result<(String, String), AttributionError>)
    requires
        v.wf(),
    ensures
        match r {
            Ok((key, val)) => checked_tag(k@, v.model()) == Ok::<
                (Seq<char>, Seq<char>),
                Seq<char>,
            >((key@, val@)),
            Err(e) => checked_tag(k@, v.model()) == Err::<(Seq<char>, Seq<char>), Seq<char>>(e.0@),
        },
{
    let key = trim(k);
    if key.is_empty() {
        return Err(AttributionError("attribution.tags keys must not be empty".to_owned()));
    }
    if key.unicode_len() > MAX_TAG_KEY_LEN {
        let mut msg = "attribution.tags key '".to_owned();
        msg.append(key);
        msg.append("' exceeds ");
        msg.append(u64_text(MAX_TAG_KEY_LEN as u64).as_str());
        msg.append(" characters");
        return Err(AttributionError(msg));
    }
    if !is_safe_tag_key(key) {
        let mut msg = "attribution.tags key '".to_owned();
        msg.append(key);
        msg.append("' must contain only letters, digits, '_', '-', '.' or ':'");
        return Err(AttributionError(msg));
    }
    let val = match tag_text(v) {
        Some(val) => val,
        None => {
            let mut msg = "attribution.tags value for '".to_owned();
            msg.append(key);
            msg.append("' must be a string, number or boolean");
            return Err(AttributionError(msg));
        },
    };
    if val.as_str().unicode_len() > MAX_TAG_VALUE_LEN {
        let mut msg = "attribution.tags value for '".to_owned();
        msg.append(key);
        msg.append("' exceeds ");
        msg.append(u64_text(MAX_TAG_VALUE_LEN as u64).as_str());
        msg.append(" characters");
        return Err(AttributionError(msg));
    }
    if !is_safe(val.as_str()) {
        let mut msg = "attribution.tags value for '".to_owned();
        msg.append(key);
        msg.append("' contains unsupported characters");
        return Err(AttributionError(msg));
    }
    Ok((key.to_owned(), val))
}

/// Validates a JSON value as tags.
pub fn validate_tags(value: &Json) -> (r: Result<TextMap, AttributionError>)
    requires
        value.wf(),
    ensures
        tags_outcome(r) == checked_tags(value.model()),
{
    let entries = match value.as_object() {
        Some(entries) => entries,
        None => {
            return Err(AttributionError("attribution.tags must be an object".to_owned()));
        },
    };
    let ghost all = entry_models(entries@);
    if entries.len() > MAX_TAGS {
        let mut msg = "attribution.tags must have at most ".to_owned();
        msg.append(u64_text(MAX_TAGS as u64).as_str());
        msg.append(" entries");
        return Err(AttributionError(msg));
    }
    let mut out = TextMap::new();
    let mut i: usize = 0;
    while i < entries.len()
        invariant
            i <= entries.len(),
            all == entry_models(entries@),
            value.wf(),
            value.model() == JsonModel::Obj(all),
            all.len() <= MAX_TAGS,
            collected_tags(all.take(i as int)) == Ok::<
                Seq<(Seq<char>, Seq<char>)>,
                Seq<char>,
            >(out@),
        decreases entries.len() - i,
    {
        assert(all.take(i + 1).drop_last() =~= all.take(i as int));
        assert(all.take(i + 1).last() == all[i as int]);
        assert(all[i as int].1.wf());
        match validate_tag(entries[i].0.as_str(), &entries[i].1) {
            Ok((key, val)) => {
                out = out.insert(key, val);
            },
            Err(e) => {
                proof {
                    lemma_first_error_stays(all, i + 1);
                }
                return Err(e);
            },
        }
        i += 1;
    }
    assert(all.take(i as int) =~= all);
    let encoded = out.to_json_text();
    if byte_len(encoded.as_str()) > MAX_TAGS_BYTES {
        let mut msg = "attribution.tags must serialise to at most ".to_owned();
        msg.append(u64_text(MAX_TAGS_BYTES as u64).as_str());
        msg.append(" bytes");
        return Err(AttributionError(msg));
    }
    Ok(out)
}

proof fn lemma_first_error_stays(entries: Seq<(Seq<char>, JsonModel)>, n: int)
    requires
        0 <= n <= entries.len(),
        collected_tags(entries.take(n)) is Err,
    ensures
        collected_tags(entries) == collected_tags(entries.take(n)),
    decreases entries.len() - n,
{
    if n < entries.len() {
        assert(entries.take(n + 1).drop_last() =~= entries.take(n));
        lemma_first_error_stays(entries, n + 1);
    } else {
        assert(entries.take(n) =~= entries);
    }
}

impl Attribution {
    /// True when nothing was supplied.
    pub fn is_empty(&self) -> (r: bool)
        ensures
            r == (self@.correlation_id is None && self@.tags.len() == 0 && self@.project is None),
    {
        self.correlation_id.is_none() && self.tags.is_empty() && self.project.is_none()
    }

    /// The project that this request's spend belongs to: the one the request
    /// names, otherwise the API key's own.
    pub fn project_or(&self, key_project: Option<String>) -> (r: Option<String>)
        ensures
            r == (if self.project is Some {
                self.project
            } else {
                key_project
            }),
    {
        match &self.project {
            Some(p) => Some(p.clone()),
            None => key_project,
        }
    }

    /// The tags as the JSON object in which they are stored, `{}` where there
    /// are none.
    pub fn tags_json(&self) -> (r: String)
        ensures
            r@ == map_text(self@.tags),
            self@.tags.len() == 0 ==> r@ == "{}"@,
    {
        self.tags.to_json_text()
    }

    /// Reads the attribution of a request. The body wins, field by field.
    pub fn extract(body: &Json, headers: &HeaderMap<HeaderValue>) -> (r: Result<
        Attribution,
        AttributionError,
    >)
        requires
            body.wf(),
        ensures
            outcome(r) == extracted(body.model(), *headers),
    {
        let from_body = match body.get(BODY_FIELD) {
            None => Attribution::default(),
            Some(Json::Null) => Attribution::default(),
            Some(v) => {
                proof {
                    Json::lemma_field_wf(body.model(), BODY_FIELD@);
                }
                match Attribution::from_value(v) {
                    Ok(a) => a,
                    Err(e) => {
                        return Err(e);
                    },
                }
            },
        };
        let mut out = from_body;
        let ghost a = from_body@;
        if out.correlation_id.is_none() {
            if let Some(raw) = header_str(headers, CORRELATION_HEADER) {
                match validate_correlation_id(raw.as_str()) {
                    Ok(v) => {
                        out.correlation_id = Some(v);
                    },
                    Err(e) => {
                        return Err(e);
                    },
                }
            }
        }
        if out.tags.is_empty() {
            if let Some(raw) = header_str(headers, TAGS_HEADER) {
                match Json::parse(raw.as_str()) {
                    None => {
                        return Err(
                            AttributionError("x-attribution-tags must be a JSON object".to_owned()),
                        );
                    },
                    Some(parsed) => match validate_tags(&parsed) {
                        Ok(tags) => {
                            out.tags = tags;
                        },
                        Err(e) => {
                            return Err(e);
                        },
                    },
                }
            }
        }
        if out.project.is_none() {
            if let Some(raw) = header_str(headers, PROJECT_HEADER) {
                match validate_project(raw.as_str()) {
                    Ok(v) => {
                        out.project = Some(v);
                    },
                    Err(e) => {
                        return Err(e);
                    },
                }
            }
        }
        Ok(out)
    }

    /// Reads the attribution of a request without a JSON body.
    pub fn from_headers(headers: &HeaderMap<HeaderValue>) -> (r: Result<
        Attribution,
        AttributionError,
    >)
        ensures
            outcome(r) == filled(no_attribution(), *headers),
    {
        Attribution::extract(&Json::Null, headers)
    }

    /// Validates the value of the body field.
    pub fn from_value(value: &Json) -> (r: Result<Attribution, AttributionError>)
        requires
            value.wf(),
        ensures
            outcome(r) == stated(value.model()),
    {
        let entries = match value.as_object() {
            Some(entries) => entries,
            None => {
                return Err(AttributionError("attribution must be an object".to_owned()));
            },
        };
        let ghost all = entry_models(entries@);
        assert(all.skip(0) =~= all);
        let mut i: usize = 0;
        while i < entries.len()
            invariant
                i <= entries.len(),
                all == entry_models(entries@),
                value.model() == JsonModel::Obj(all),
                first_unknown(all.skip(i as int)) == first_unknown(all),
            decreases entries.len() - i,
        {
            let key = entries[i].0.as_str();
            assert(all.skip(i as int)[0].0 == key@);
            if !(same(key, "correlation_id") || same(key, "tags") || same(key, "project")) {
                return Err(
                    AttributionError("unknown attribution field: ".to_owned().concat(key)),
                );
            }
            assert(all.skip(i as int).drop_first() =~= all.skip(i + 1));
            i += 1;
        }
        proof {
            Json::lemma_field_wf(value.model(), "tags"@);
        }
        let correlation_id = match value.get("correlation_id") {
            None => None,
            Some(Json::Null) => None,
            Some(Json::Str(s)) => match validate_correlation_id(s.as_str()) {
                Ok(v) => Some(v),
                Err(e) => {
                    return Err(e);
                },
            },
            Some(_) => {
                return Err(
                    AttributionError("attribution.correlation_id must be a string".to_owned()),
                );
            },
        };
        let tags = match value.get("tags") {
            None => TextMap::new(),
            Some(Json::Null) => TextMap::new(),
            Some(v) => match validate_tags(v) {
                Ok(tags) => tags,
                Err(e) => {
                    return Err(e);
                },
            },
        };
        let project = match value.get("project") {
            None => None,
            Some(Json::Null) => None,
            Some(Json::Str(s)) => match validate_project(s.as_str()) {
                Ok(v) => Some(v),
                Err(e) => {
                    return Err(e);
                },
            },
            Some(_) => {
                return Err(AttributionError("attribution.project must be a string".to_owned()));
            },
        };
        Ok(Attribution { correlation_id, tags, project })
    }
}

// ---------------------------------------------------------------------------
// Laws
// ---------------------------------------------------------------------------

/// The body wins over the headers field by field, and headers fill in exactly
/// what the body leaves out.
pub proof fn body_wins_field_by_field(
    body: JsonModel,
    h: HeaderMap<HeaderValue>,
    in_body: AttributionModel,
    a: AttributionModel,
)
    requires
        stated_in_body(body) == Ok::<AttributionModel, Seq<char>>(in_body),
        extracted(body, h) == Ok::<AttributionModel, Seq<char>>(a),
    ensures
        in_body.correlation_id is Some ==> a.correlation_id == in_body.correlation_id,
        in_body.tags.len() > 0 ==> a.tags == in_body.tags,
        in_body.project is Some ==> a.project == in_body.project,
        in_body.correlation_id is None ==> match stated_header(h, CORRELATION_HEADER@) {
            Some(raw) => a.correlation_id == Some(trimmed(raw)),
            None => a.correlation_id is None,
        },
        in_body.tags.len() == 0 ==> match stated_header(h, TAGS_HEADER@) {
            Some(raw) => tags_of_header(raw) == Ok::<Seq<(Seq<char>, Seq<char>)>, Seq<char>>(a.tags),
            None => a.tags.len() == 0,
        },
        in_body.project is None ==> match stated_header(h, PROJECT_HEADER@) {
            Some(raw) => a.project == Some(trimmed(raw)),
            None => a.project is None,
        },
{
}

/// Where the body states every field, what the headers say makes no difference.
pub proof fn headers_are_a_fallback_only(
    body: JsonModel,
    h1: HeaderMap<HeaderValue>,
    h2: HeaderMap<HeaderValue>,
)
    requires
        stated_in_body(body) matches Ok(a) ==> a.correlation_id is Some && a.tags.len() > 0
            && a.project is Some,
    ensures
        extracted(body, h1) == extracted(body, h2),
{
}

/// The bounds on tags that were accepted: how many, which keys and which
/// values.
pub open spec fn bounded_tags(tags: Seq<(Seq<char>, Seq<char>)>) -> bool {
    &&& tags.len() <= MAX_TAGS
    &&& ascending(tags)
    &&& byte_count(map_text(tags)) <= MAX_TAGS_BYTES
    &&& forall|i: int| 0 <= i < tags.len() ==> acceptable_tag(#[trigger] tags[i])
}

pub open spec fn acceptable_tag(tag: (Seq<char>, Seq<char>)) -> bool {
    &&& safe_tag_key(tag.0)
    &&& tag.0.len() <= MAX_TAG_KEY_LEN
    &&& safe(tag.1)
    &&& tag.1.len() <= MAX_TAG_VALUE_LEN
}

proof fn lemma_collected_tags(entries: Seq<(Seq<char>, JsonModel)>)
    ensures
        collected_tags(entries) matches Ok(tags) ==> {
            &&& tags.len() <= entries.len()
            &&& ascending(tags)
            &&& forall|i: int| 0 <= i < tags.len() ==> acceptable_tag(#[trigger] tags[i])
        },
    decreases entries.len(),
{
    if entries.len() > 0 {
        lemma_collected_tags(entries.drop_last());
        if let Ok(tags) = collected_tags(entries.drop_last()) {
            if let Ok((key, val)) = checked_tag(entries.last().0, entries.last().1) {
                lemma_with_entry_members(tags, key, val);
                lemma_with_entry_ascends(tags, key, val);
                let t = with_entry(tags, key, val);
                assert(acceptable_tag((key, val)));
                assert forall|i: int| 0 <= i < t.len() implies acceptable_tag(#[trigger] t[i]) by {
                    if t[i] != (key, val) {
                        let j = choose|j: int| 0 <= j < tags.len() && tags[j] == t[i];
                        assert(acceptable_tag(tags[j]));
                    }
                }
            }
        }
    }
}

/// Tags that a request carries are bounded in number and size, their keys can
/// stand inside a JSON path as they are, and their values are printable.
pub proof fn accepted_tags_are_bounded(v: JsonModel, tags: Seq<(Seq<char>, Seq<char>)>)
    requires
        checked_tags(v) == Ok::<Seq<(Seq<char>, Seq<char>)>, Seq<char>>(tags),
    ensures
        bounded_tags(tags),
{
    lemma_collected_tags(v->Obj_0);
}

/// An accepted tag key holds no quote, backslash, dollar sign or white space.
pub proof fn tag_keys_fit_a_json_path(key: Seq<char>)
    requires
        safe_tag_key(key),
    ensures
        forall|i: int|
            0 <= i < key.len() ==> {
                &&& #[trigger] key[i] != '"'
                &&& key[i] != '\\'
                &&& key[i] != '$'
                &&& !crate::text::white(key[i])
            },
{
    assert forall|i: int| 0 <= i < key.len() implies {
        &&& #[trigger] key[i] != '"'
        &&& key[i] != '\\'
        &&& key[i] != '$'
        &&& !crate::text::white(key[i])
    } by {
        assert(tag_key_char(key[i]));
    }
}

/// An id that is accepted once is accepted again as it is: validation is
/// idempotent.
pub proof fn accepted_id_is_stable(field: Seq<char>, raw: Seq<char>, id: Seq<char>)
    requires
        checked_correlation_id(field, raw) == Ok::<Seq<char>, Seq<char>>(id),
    ensures
        checked_correlation_id(field, id) == Ok::<Seq<char>, Seq<char>>(id),
        0 < id.len() <= MAX_CORRELATION_LEN,
        safe(id),
{
    crate::text::trimming_is_idempotent(raw);
}

/// A project or an id that is accepted is the text itself, without the white space around it:
/// not blank, not too long, and an id printable. Nothing else is refused.
pub proof fn accepted_names_are_the_texts_themselves(field: Seq<char>, raw: Seq<char>, v: Seq<char>)
    ensures
        checked_project(raw) == Ok::<Seq<char>, Seq<char>>(v) <==> v == trimmed(raw) && 1 <= v.len() <= 128,
        checked_correlation_id(field, raw) == Ok::<Seq<char>, Seq<char>>(v) <==> v == trimmed(raw) && 1
            <= v.len() <= 128 && safe(v),
        trimmed(raw).len() == 0 ==> checked_correlation_id(field, raw) == Err::<Seq<char>, Seq<char>>(
            field + " must not be empty"@,
        ),
        safe_char(' ') && safe_char('~') && safe_char('a') && !safe_char('\n') && !safe_char('\u{7f}'),
        tag_key_char('a') && tag_key_char('9') && tag_key_char('_') && !tag_key_char(' '),
{
}

/// The value of a tag is a text, a number or a truth value, as it is written; its key is
/// kept without the white space around it.
pub proof fn tags_keep_key_and_value(raw: Seq<char>, v: JsonModel, s: Seq<char>, n: int, tag: (Seq<char>, Seq<char>))
    ensures
        tag_value_text(JsonModel::Str(s)) == Some(trimmed(s)),
        tag_value_text(JsonModel::Int(n)) == Some(int_text(n)),
        tag_value_text(JsonModel::Bool(true)) == Some("true"@),
        tag_value_text(JsonModel::Bool(false)) == Some("false"@),
        tag_value_text(JsonModel::Null) is None,
        v is Arr || v is Obj ==> tag_value_text(v) is None,
        checked_tag(raw, v) == Ok::<(Seq<char>, Seq<char>), Seq<char>>(tag) <==> tag.0 == trimmed(raw)
            && safe_tag_key(tag.0) && tag.0.len() <= 64 && tag_value_text(v) == Some(tag.1) && tag.1.len()
            <= 128 && safe(tag.1),
{
}

/// The tags of a request are those it states: every member is there under its key, the
/// later one where two have the same.
pub proof fn stated_tags_are_kept(
    entries: Seq<(Seq<char>, JsonModel)>,
    tags: Seq<(Seq<char>, Seq<char>)>,
    i: int,
)
    requires
        collected_tags(entries) == Ok::<Seq<(Seq<char>, Seq<char>)>, Seq<char>>(tags),
        0 <= i < entries.len(),
        forall|j: int|
            i < j < entries.len() ==> trimmed((#[trigger] entries[j]).0) != trimmed(entries[i].0),
    ensures
        lookup(tags, trimmed(entries[i].0)) == tag_value_text(entries[i].1),
        lookup(tags, trimmed(entries[i].0)) is Some,
    decreases entries.len(),
{
    broadcast use {
        crate::ordered::entries_are_found,
        crate::ordered::nothing_is_found_in_nothing,
    };

    let front = entries.drop_last();
    assert(entries[entries.len() - 1] == entries.last());
    if i < entries.len() - 1 {
        assert forall|j: int| i < j < front.len() implies trimmed((#[trigger] front[j]).0) != trimmed(
            front[i].0,
        ) by {
            assert(front[j] == entries[j]);
        }
        stated_tags_are_kept(front, collected_tags(front)->Ok_0, i);
    }
}

/// What a request states of itself is read by name, from its own object; a member of any
/// other name is refused.
pub proof fn attribution_is_read_by_name(v: JsonModel, a: AttributionModel, s: Seq<char>)
    requires
        v is Obj,
        stated(v) == Ok::<AttributionModel, Seq<char>>(a),
    ensures
        v.field("correlation_id"@) is None || v.field("correlation_id"@) == Some(JsonModel::Null)
            ==> a.correlation_id is None,
        v.field("correlation_id"@) == Some(JsonModel::Str(s)) ==> a.correlation_id == Some(trimmed(s)),
        v.field("project"@) is None || v.field("project"@) == Some(JsonModel::Null) ==> a.project is None,
        v.field("project"@) == Some(JsonModel::Str(s)) ==> a.project == Some(trimmed(s)),
        v.field("tags"@) is None || v.field("tags"@) == Some(JsonModel::Null) ==> a.tags.len() == 0,
        v.field("tags"@) matches Some(JsonModel::Obj(entries)) ==> collected_tags(entries) == Ok::<
            Seq<(Seq<char>, Seq<char>)>,
            Seq<char>,
        >(a.tags),
        forall|i: int|
            0 <= i < v->Obj_0.len() ==> (#[trigger] v->Obj_0[i]).0 == "correlation_id"@ || v->Obj_0[i].0
                == "tags"@ || v->Obj_0[i].0 == "project"@,
{
    lemma_no_unknown(v->Obj_0);
}

proof fn lemma_no_unknown(entries: Seq<(Seq<char>, JsonModel)>)
    ensures
        first_unknown(entries) is None <==> forall|i: int|
            0 <= i < entries.len() ==> known_field((#[trigger] entries[i]).0),
    decreases entries.len(),
{
    if entries.len() > 0 {
        let rest = entries.drop_first();
        lemma_no_unknown(rest);
        assert(forall|i: int| 0 <= i < rest.len() ==> #[trigger] rest[i] == entries[i + 1]);
        if first_unknown(entries) is None {
            assert forall|i: int| 0 <= i < entries.len() implies known_field((#[trigger] entries[i]).0) by {
                if i > 0 {
                    assert(known_field(rest[i - 1].0));
                }
            }
        } else if known_field(entries[0].0) {
            let i = choose|i: int| 0 <= i < rest.len() && !known_field((#[trigger] rest[i]).0);
            assert(!known_field(entries[i + 1].0));
        } else {
            assert(!known_field(entries[0].0));
        }
    }
}

/// What a request is attributed to is shown part by part.
pub proof fn attribution_shows_its_parts(a: Attribution)
    ensures
        a@.correlation_id == opt_text(a.correlation_id),
        a@.tags == a.tags@,
        a@.project == opt_text(a.project),
{
}

} // verus!
