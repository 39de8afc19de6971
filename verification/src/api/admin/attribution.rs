//! Usage by attribution: what one unit of work, named by its correlation id or
//! by a tag, has cost.

use crate::api::attribution::{is_safe_tag_key, safe_tag_key};
use crate::api::error::ApiError;
use crate::clock::{
    day_start, month_start, now, shift_days, shifted, start_of_day, start_of_month, zulu, zulu_text,
};
use crate::json::{json_texts, text_array, Json, JsonModel};
use crate::ordered::with_entry;
use crate::text::{same, texts, trim, trimmed};
use vstd::prelude::*;

verus! {

/// Cap on how many distinct values the pickers will load.
pub const FACET_LIMIT: i64 = 500;

/// Why a tag key is refused.
pub const UNSAFE_TAG_KEY: &'static str =
    "attribution tag key must contain only letters, digits, '_', '-', '.' or ':'";

/// Which rows are asked for: those of a correlation id, or those with a tag.
#[derive(Debug, Clone, PartialEq, Eq)]
pub enum AttributionFilter {
    CorrelationId(String),
    Tag { key: String, value: String },
}

pub enum AttributionFilterModel {
    CorrelationId(Seq<char>),
    Tag { key: Seq<char>, value: Seq<char> },
}

impl View for AttributionFilter {
    type V = AttributionFilterModel;

    open spec fn view(&self) -> AttributionFilterModel {
        match self {
            AttributionFilter::CorrelationId(id) => AttributionFilterModel::CorrelationId(id@),
            AttributionFilter::Tag { key, value } => AttributionFilterModel::Tag {
                key: key@,
                value: value@,
            },
        }
    }
}

/// A question about usage. With an empty `key` it is about the correlation id
/// `value`, otherwise about the tag `key`.
#[derive(Debug, Clone, PartialEq, Eq)]
pub struct AttributionQuery {
    pub key: String,
    pub value: String,
    pub window: String,
}

/// The window of a question that names none.
pub fn default_window() -> (r: String)
    ensures
        r@ == "monthly"@,
{
    "monthly".to_owned()
}

/// The filter that a key and a value ask for: none without a value, and an
/// error where the key cannot be one.
pub open spec fn filter_of(key: Seq<char>, value: Seq<char>) -> Result<
    Option<AttributionFilterModel>,
    Seq<char>,
> {
    if trimmed(value).len() == 0 {
        Ok(None)
    } else if trimmed(key).len() == 0 {
        Ok(Some(AttributionFilterModel::CorrelationId(trimmed(value))))
    } else if !safe_tag_key(trimmed(key)) {
        Err(UNSAFE_TAG_KEY@)
    } else {
        Ok(Some(AttributionFilterModel::Tag { key: trimmed(key), value: trimmed(value) }))
    }
}

impl AttributionQuery {
    /// The filter this question selects, or `None` where it names no value.
    pub fn filter(&self) -> (r: Result<Option<AttributionFilter>, ApiError>)
        ensures
            match filter_of(self.key@, self.value@) {
                Ok(None) => r matches Ok(f) && f is None,
                Ok(Some(f)) => r matches Ok(Some(g)) && g@ == f,
                Err(message) => r matches Err(ApiError::InvalidRequest(m)) && m@ == message,
            },
    {
        let value = trim(self.value.as_str());
        if value.is_empty() {
            return Ok(None);
        }
        let key = trim(self.key.as_str());
        if key.is_empty() {
            return Ok(Some(AttributionFilter::CorrelationId(value.to_owned())));
        }
        if !is_safe_tag_key(key) {
            return Err(ApiError::InvalidRequest(UNSAFE_TAG_KEY.to_owned()));
        }
        Ok(Some(AttributionFilter::Tag { key: key.to_owned(), value: value.to_owned() }))
    }

    /// The filter of a question that must have one.
    pub fn required_filter(&self) -> (r: Result<AttributionFilter, ApiError>)
        ensures
            match filter_of(self.key@, self.value@) {
                Ok(None) => r matches Err(ApiError::InvalidRequest(m)) && m@
                    == "value is required"@,
                Ok(Some(f)) => r matches Ok(g) && g@ == f,
                Err(message) => r matches Err(ApiError::InvalidRequest(m)) && m@ == message,
            },
    {
        match self.filter() {
            Ok(Some(f)) => Ok(f),
            Ok(None) => Err(ApiError::InvalidRequest("value is required".to_owned())),
            Err(e) => Err(e),
        }
    }
}

// ---------------------------------------------------------------------------
// Windows
// ---------------------------------------------------------------------------

/// The beginning of the epoch, from which the window `all` starts.
pub const EPOCH: &'static str = "1970-01-01T00:00:00Z";

/// Where a window starts at a moment: the beginning of the day, seven days
/// before, or the beginning of the month.
pub open spec fn window_start(window: Seq<char>, secs: i64) -> Option<i64> {
    if window == "daily"@ {
        day_start(secs)
    } else if window == "weekly"@ {
        shifted(secs, -7)
    } else {
        month_start(secs)
    }
}

pub fn start_of_window(window: &str, secs: i64) -> (r: Option<i64>)
    ensures
        r == window_start(window@, secs),
{
    if same(window, "daily") {
        start_of_day(secs)
    } else if same(window, "weekly") {
        shift_days(secs, -7)
    } else {
        start_of_month(secs)
    }
}

/// The first and last moment of a named window, as it is asked for at `secs`.
/// Every window ends a day ahead, so it holds all that was recorded.
pub open spec fn window_bounds(window: Seq<char>, secs: i64) -> Option<(Seq<char>, Seq<char>)> {
    let end = match shifted(secs, 1) {
        Some(t) => zulu_text(t),
        None => None,
    };
    let start = if window == "all"@ {
        Some(EPOCH@)
    } else {
        match window_start(window, secs) {
            Some(t) => zulu_text(t),
            None => None,
        }
    };
    match (start, end) {
        (Some(start), Some(end)) => Some((start, end)),
        _ => None,
    }
}

pub open spec fn opt_bounds(r: Option<(String, String)>) -> Option<(Seq<char>, Seq<char>)> {
    match r {
        Some((a, b)) => Some((a@, b@)),
        None => None,
    }
}

/// The bounds of a window at a moment; none only where the calendar ends.
pub fn window_range_at(window: &str, secs: i64) -> (r: Option<(String, String)>)
    ensures
        opt_bounds(r) == window_bounds(window@, secs),
{
    let end = match shift_days(secs, 1) {
        Some(t) => zulu(t),
        None => None,
    };
    let start = if same(window, "all") {
        Some(EPOCH.to_owned())
    } else {
        match start_of_window(window, secs) {
            Some(t) => zulu(t),
            None => None,
        }
    };
    match (start, end) {
        (Some(start), Some(end)) => Some((start, end)),
        _ => None,
    }
}

/// The bounds of a window as of now.
pub fn window_range(window: &str) -> (r: Option<(String, String)>)
    ensures
        exists|secs: i64| opt_bounds(r) == #[trigger] window_bounds(window@, secs),
{
    let t = now();
    window_range_at(window, t.secs)
}

// ---------------------------------------------------------------------------
// Facets
// ---------------------------------------------------------------------------

#[derive(Debug, Clone, PartialEq, Eq)]
pub struct FacetQuery {
    pub key: String,
}

/// What the pickers load.
#[derive(Debug, Clone, PartialEq, Eq)]
pub enum Facets {
    /// The tag keys in the ledger and the known correlation ids.
    KeysAndIds,
    /// The values recorded for a tag.
    ValuesOf(String),
}

impl FacetQuery {
    pub fn facets(&self) -> (r: Result<Facets, ApiError>)
        ensures
            trimmed(self.key@).len() == 0 ==> r == Ok::<Facets, ApiError>(Facets::KeysAndIds),
            trimmed(self.key@).len() > 0 && safe_tag_key(trimmed(self.key@)) ==> (r matches Ok(
                Facets::ValuesOf(key),
            ) && key@ == trimmed(self.key@)),
            trimmed(self.key@).len() > 0 && !safe_tag_key(trimmed(self.key@)) ==> (r matches Err(
                ApiError::InvalidRequest(m),
            ) && m@ == UNSAFE_TAG_KEY@),
    {
        let key = trim(self.key.as_str());
        if key.is_empty() {
            return Ok(Facets::KeysAndIds);
        }
        if !is_safe_tag_key(key) {
            return Err(ApiError::InvalidRequest(UNSAFE_TAG_KEY.to_owned()));
        }
        Ok(Facets::ValuesOf(key.to_owned()))
    }
}

/// The answer with the keys and the ids.
pub fn keys_and_ids_body(keys: &Vec<String>, correlation_ids: &Vec<String>) -> (r: Json)
    ensures
        r.wf(),
        r.model() == JsonModel::Obj(
            with_entry(
                with_entry(Seq::empty(), "tag_keys"@, text_array(texts(keys@))),
                "correlation_ids"@,
                text_array(texts(correlation_ids@)),
            ),
        ),
{
    Json::object().with("tag_keys", json_texts(keys)).with(
        "correlation_ids",
        json_texts(correlation_ids),
    )
}

/// The answer with the values of a tag.
pub fn values_body(key: &str, values: &Vec<String>) -> (r: Json)
    ensures
        r.wf(),
        r.model() == JsonModel::Obj(
            with_entry(
                with_entry(Seq::empty(), "key"@, JsonModel::Str(key@)),
                "values"@,
                text_array(texts(values@)),
            ),
        ),
{
    Json::object().with("key", Json::Str(key.to_owned())).with("values", json_texts(values))
}

/// A value without a key asks for a run, one with a key for a tag, and no value for nothing;
/// what is asked for is the text without the white space around it.
pub proof fn filters_ask_for_what_was_typed(key: Seq<char>, value: Seq<char>)
    ensures
        trimmed(value).len() == 0 ==> filter_of(key, value) == Ok::<
            Option<AttributionFilterModel>,
            Seq<char>,
        >(None),
        trimmed(value).len() > 0 && trimmed(key).len() == 0 ==> filter_of(key, value) == Ok::<
            Option<AttributionFilterModel>,
            Seq<char>,
        >(Some(AttributionFilterModel::CorrelationId(trimmed(value)))),
        trimmed(value).len() > 0 && trimmed(key).len() > 0 && safe_tag_key(trimmed(key)) ==> filter_of(
            key,
            value,
        ) == Ok::<Option<AttributionFilterModel>, Seq<char>>(
            Some(AttributionFilterModel::Tag { key: trimmed(key), value: trimmed(value) }),
        ),
        filter_of(key, value) is Err <==> trimmed(value).len() > 0 && trimmed(key).len() > 0
            && !safe_tag_key(trimmed(key)),
{
}

/// A window opens at the start of the day, a week back, or at the start of the month, and all
/// of time at the epoch; it closes a day ahead.
pub proof fn windows_open_and_close(secs: i64, other: Seq<char>, start: i64, end: i64, w: (Seq<char>, Seq<char>))
    ensures
        window_start("daily"@, secs) == Some(start) ==> start <= secs < start + 86400 && start as int % 86400
            == 0,
        window_start("weekly"@, secs) == Some(start) ==> start == secs - 7 * 86400,
        other != "daily"@ && other != "weekly"@ ==> window_start(other, secs) == month_start(secs),
        window_bounds(other, secs) == Some(w) && i64::MIN <= secs + 86400 <= i64::MAX && end == secs + 86400
            ==> zulu_text(end) == Some(w.1),
        window_bounds("all"@, secs) == Some(w) ==> w.0 == "1970-01-01T00:00:00Z"@,
        window_bounds(other, secs) == Some(w) && other != "all"@ && window_start(other, secs) == Some(start)
            ==> zulu_text(start) == Some(w.0),
{
    reveal_strlit("daily");
    reveal_strlit("weekly");
    reveal_strlit("all");
    assert("daily"@.len() == 5);
    assert("weekly"@.len() == 6);
    assert("all"@.len() == 3);
}

} // verus!
