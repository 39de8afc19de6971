//! Controlled experiments: what a create request must say, which targets an
//! experiment may send traffic to, and how it is closed.
//!
//! An experiment is created once, with every variant's target resolved and
//! pinned to a provider and a model at that moment, and later closed; nothing
//! else about it ever changes. It can only send traffic somewhere whose cost is
//! known.
//!
//! `expires_at` and `content_retention_days` are never defaulted: the caller
//! writes `0` to mean never.

use crate::api::admin::audit::{change, change_of, entry, entry_of, name_of, named};
use crate::api::admin::auth::SuperAdminSession;
use crate::api::error::ApiError;
use crate::clock::{parse_rfc3339, rfc3339_moment, Moment};
use crate::json::{
    entry_models, json_int, json_text_or_null, list_models, text_of_json, text_or_null, Json,
    JsonModel,
};
use crate::ordered::{lemma_with_entry_members, lookup, with_entry};
use crate::records::{
    Experiment, ExperimentStatus, NewAuditLogEntry, NewExperiment, PinnedOverlay, VariantTarget,
};
use crate::text::{
    ascii_alphanumeric, chars_of, i64_of_text, i64_text, int_text, is_ascii_alphanumeric, nat_text,
    opt_str, opt_text, parse_i64, same, trim, trimmed, u64_text,
};
use crate::text_map::TextMap;
use vstd::prelude::*;

verus! {

/// Bounds on a create request.
pub const MAX_NAME_LEN: usize = 128;

pub const MIN_VARIANTS: usize = 2;

pub const MAX_VARIANTS: usize = 16;

pub const MAX_OVERLAY_ENTRIES: usize = 32;

pub const MAX_EXPR_LEN: usize = 128;

pub const MAX_RETENTION_DAYS: i64 = 3650;

/// Upper bound on `allowed_user_ids`; each id costs one lookup at creation.
pub const MAX_ALLOWED_USERS: usize = 64;

/// The longest label that fits the request header.
pub const MAX_LABEL_LEN: usize = 64;

// ---------------------------------------------------------------------------
// Labels
// ---------------------------------------------------------------------------

pub open spec fn label_char(c: char) -> bool {
    ascii_alphanumeric(c) || c == '_' || c == '.' || c == '-'
}

/// A variant's label: one to 64 letters, digits, `_`, `.` or `-`.
pub open spec fn valid_label(s: Seq<char>) -> bool {
    &&& 0 < s.len() <= MAX_LABEL_LEN
    &&& forall|i: int| 0 <= i < s.len() ==> label_char(#[trigger] s[i])
}

pub fn is_valid_label(s: &str) -> (r: bool)
    ensures
        r == valid_label(s@),
{
    let cs = chars_of(s);
    if cs.len() == 0 || cs.len() > MAX_LABEL_LEN {
        return false;
    }
    let mut i: usize = 0;
    while i < cs.len()
        invariant
            i <= cs.len(),
            cs@ == s@,
            forall|j: int| 0 <= j < i ==> label_char(#[trigger] s@[j]),
        decreases cs.len() - i,
    {
        let c = cs[i];
        if !(is_ascii_alphanumeric(c) || c == '_' || c == '.' || c == '-') {
            assert(!label_char(s@[i as int]));
            return false;
        }
        i += 1;
    }
    true
}

// ---------------------------------------------------------------------------
// What a create request says
// ---------------------------------------------------------------------------

/// A validated create request. The targets are still the expressions that the
/// caller wrote.
#[derive(Debug, PartialEq, Eq)]
pub struct ParsedCreate {
    pub name: String,
    /// Each variant's label with its overlay, by ascending label.
    pub variants: Vec<(String, TextMap)>,
    pub allowed_user_ids: Vec<i64>,
    pub feed_learning: bool,
    /// Seconds since the epoch, 0 for never.
    pub expires_at: i64,
    pub retain_content: bool,
    /// 0 for ever.
    pub content_retention_days: i64,
}

/// The overlay of a variant: the target of each requested model.
pub type OverlayModel = Seq<(Seq<char>, Seq<char>)>;

/// The content of a create request.
pub struct CreateModel {
    pub name: Seq<char>,
    pub variants: Seq<(Seq<char>, OverlayModel)>,
    pub allowed_user_ids: Seq<i64>,
    pub feed_learning: bool,
    pub expires_at: i64,
    pub retain_content: bool,
    pub content_retention_days: i64,
}

pub open spec fn variant_models(v: Seq<(String, TextMap)>) -> Seq<(Seq<char>, OverlayModel)> {
    v.map_values(|e: (String, TextMap)| (e.0@, e.1@))
}

impl View for ParsedCreate {
    type V = CreateModel;

    open spec fn view(&self) -> CreateModel {
        CreateModel {
            name: self.name@,
            variants: variant_models(self.variants@),
            allowed_user_ids: self.allowed_user_ids@,
            feed_learning: self.feed_learning,
            expires_at: self.expires_at,
            retain_content: self.retain_content,
            content_retention_days: self.content_retention_days,
        }
    }
}

pub open spec fn outcome(r: Result<ParsedCreate, String>) -> Result<CreateModel, Seq<char>> {
    match r {
        Ok(p) => Ok(p@),
        Err(e) => Err(e@),
    }
}

/// A member that must be there, and not null.
pub open spec fn required(body: JsonModel, field: Seq<char>) -> Result<JsonModel, Seq<char>> {
    match body.field(field) {
        None => Err(field + " is required"@),
        Some(JsonModel::Null) => Err(field + " is required"@),
        Some(v) => Ok(v),
    }
}

pub open spec fn required_bool(body: JsonModel, field: Seq<char>) -> Result<bool, Seq<char>> {
    match required(body, field) {
        Err(e) => Err(e),
        Ok(v) => match v.boolean() {
            Some(b) => Ok(b),
            None => Err(field + " must be a boolean"@),
        },
    }
}

/// The name, without the white space around it.
pub open spec fn stated_name(body: JsonModel) -> Result<Seq<char>, Seq<char>> {
    match required(body, "name"@) {
        Err(e) => Err(e),
        Ok(v) => match v.text() {
            None => Err("name must be a string"@),
            Some(s) => if trimmed(s).len() == 0 || trimmed(s).len() > MAX_NAME_LEN {
                Err("name must be 1-"@ + nat_text(MAX_NAME_LEN as nat) + " characters"@)
            } else {
                Ok(trimmed(s))
            },
        },
    }
}

/// When the experiment ends: an RFC 3339 timestamp in the future, or the number
/// 0 for never. Any other number is refused rather than guessed at.
pub open spec fn stated_expiry(body: JsonModel, now: Moment) -> Result<i64, Seq<char>> {
    match required(body, "expires_at"@) {
        Err(e) => Err(e),
        Ok(JsonModel::Int(n)) => if n == 0 {
            Ok(0)
        } else {
            Err("expires_at must be an RFC3339 timestamp or 0 (never)"@)
        },
        Ok(JsonModel::Str(s)) => match rfc3339_moment(s) {
            None => Err("expires_at must be an RFC3339 timestamp or 0 (never)"@),
            Some(t) => if t.later_than(now) {
                Ok(t.secs)
            } else {
                Err("expires_at must be in the future"@)
            },
        },
        Ok(_) => Err("expires_at must be an RFC3339 timestamp or 0 (never)"@),
    }
}

pub open spec fn stated_retention(body: JsonModel) -> Result<i64, Seq<char>> {
    match required(body, "content_retention_days"@) {
        Err(e) => Err(e),
        Ok(v) => match v.signed() {
            None => Err("content_retention_days must be an integer"@),
            Some(n) => if 0 <= n <= MAX_RETENTION_DAYS {
                Ok(n)
            } else {
                Err(
                    "content_retention_days must be 0-"@ + int_text(MAX_RETENTION_DAYS as int)
                        + " (0 = forever)"@,
                )
            },
        },
    }
}

pub open spec fn entry_prefix(label: Seq<char>, key: Seq<char>) -> Seq<char> {
    "variants: variant '"@ + label + "' key '"@ + key
}

/// One entry of an overlay: the target of a requested model.
pub open spec fn checked_target(label: Seq<char>, key: Seq<char>, v: JsonModel) -> Result<
    Seq<char>,
    Seq<char>,
> {
    if key.len() == 0 || key.len() > MAX_EXPR_LEN {
        Err(entry_prefix(label, key) + "' must be 1-"@ + nat_text(MAX_EXPR_LEN as nat)
            + " characters"@)
    } else {
        match v.text() {
            None => Err(entry_prefix(label, key) + "' target must be a string"@),
            Some(t) => if t.len() == 0 || t.len() > MAX_EXPR_LEN {
                Err(
                    entry_prefix(label, key) + "' target must be 1-"@ + nat_text(
                        MAX_EXPR_LEN as nat,
                    ) + " characters"@,
                )
            } else {
                Ok(t)
            },
        }
    }
}

pub open spec fn collected_targets(label: Seq<char>, entries: Seq<(Seq<char>, JsonModel)>) -> Result<
    OverlayModel,
    Seq<char>,
>
    decreases entries.len(),
{
    if entries.len() == 0 {
        Ok(Seq::empty())
    } else {
        match collected_targets(label, entries.drop_last()) {
            Err(e) => Err(e),
            Ok(rest) => match checked_target(label, entries.last().0, entries.last().1) {
                Err(e) => Err(e),
                Ok(t) => Ok(with_entry(rest, entries.last().0, t)),
            },
        }
    }
}

/// The overlay of one variant.
pub open spec fn checked_overlay(label: Seq<char>, v: JsonModel) -> Result<OverlayModel, Seq<char>> {
    if !valid_label(label) {
        Err(
            "variants: label '"@ + label + "' must match [A-Za-z0-9_.-]{1,"@ + nat_text(
                MAX_LABEL_LEN as nat,
            ) + "}"@,
        )
    } else {
        match v {
            JsonModel::Obj(entries) => if entries.len() > MAX_OVERLAY_ENTRIES {
                Err(
                    "variants: variant '"@ + label + "' has "@ + nat_text(entries.len())
                        + " entries; at most "@ + nat_text(MAX_OVERLAY_ENTRIES as nat)
                        + " allowed"@,
                )
            } else {
                collected_targets(label, entries)
            },
            _ => Err(
                "variants: variant '"@ + label
                    + "' must be an object of requested model -> target"@,
            ),
        }
    }
}

pub open spec fn collected_overlays(entries: Seq<(Seq<char>, JsonModel)>) -> Result<
    Seq<(Seq<char>, OverlayModel)>,
    Seq<char>,
>
    decreases entries.len(),
{
    if entries.len() == 0 {
        Ok(Seq::empty())
    } else {
        match collected_overlays(entries.drop_last()) {
            Err(e) => Err(e),
            Ok(rest) => match checked_overlay(entries.last().0, entries.last().1) {
                Err(e) => Err(e),
                Ok(overlay) => Ok(rest.push((entries.last().0, overlay))),
            },
        }
    }
}

/// The variants: between 2 and 16, each with its overlay.
pub open spec fn stated_variants(body: JsonModel) -> Result<
    Seq<(Seq<char>, OverlayModel)>,
    Seq<char>,
> {
    match required(body, "variants"@) {
        Err(e) => Err(e),
        Ok(JsonModel::Obj(entries)) => if entries.len() < MIN_VARIANTS || entries.len()
            > MAX_VARIANTS {
            Err(
                "variants must have "@ + nat_text(MIN_VARIANTS as nat) + "-"@ + nat_text(
                    MAX_VARIANTS as nat,
                ) + " entries, got "@ + nat_text(entries.len()),
            )
        } else {
            collected_overlays(entries)
        },
        Ok(_) => Err("variants must be an object of label -> overlay"@),
    }
}

pub open spec fn stated_learning(body: JsonModel) -> Result<bool, Seq<char>> {
    match body.field("feed_learning"@) {
        None => Ok(false),
        Some(JsonModel::Null) => Ok(false),
        Some(v) => match v.boolean() {
            Some(b) => Ok(b),
            None => Err("feed_learning must be a boolean"@),
        },
    }
}

/// The ids in a list, each once, in the order of their first occurrence.
pub open spec fn distinct_ids(items: Seq<JsonModel>) -> Result<Seq<i64>, Seq<char>>
    decreases items.len(),
{
    if items.len() == 0 {
        Ok(Seq::empty())
    } else {
        match distinct_ids(items.drop_last()) {
            Err(e) => Err(e),
            Ok(ids) => match items.last().signed() {
                None => Err("allowed_user_ids must be an array of integers"@),
                Some(id) => if ids.contains(id) {
                    Ok(ids)
                } else {
                    Ok(ids.push(id))
                },
            },
        }
    }
}

pub open spec fn stated_users(body: JsonModel) -> Result<Seq<i64>, Seq<char>> {
    match body.field("allowed_user_ids"@) {
        None => Ok(Seq::empty()),
        Some(JsonModel::Null) => Ok(Seq::empty()),
        Some(JsonModel::Arr(items)) => if items.len() > MAX_ALLOWED_USERS {
            Err(
                "allowed_user_ids must have at most "@ + nat_text(MAX_ALLOWED_USERS as nat)
                    + " entries"@,
            )
        } else {
            distinct_ids(items)
        },
        Some(_) => Err("allowed_user_ids must be an array of integers"@),
    }
}

pub open spec fn never_expires_note() -> Seq<char> {
    "retain_content: true requires expires_at to be set; an experiment that never expires cannot retain content"@
}

/// What a create request says, field by field: the first field at fault is the
/// one that is named.
pub open spec fn parsed_create(body: JsonModel, now: Moment) -> Result<CreateModel, Seq<char>> {
    if !(body is Obj) {
        Err("body must be a JSON object"@)
    } else if stated_name(body) is Err {
        Err(stated_name(body)->Err_0)
    } else if stated_variants(body) is Err {
        Err(stated_variants(body)->Err_0)
    } else if stated_expiry(body, now) is Err {
        Err(stated_expiry(body, now)->Err_0)
    } else if stated_retention(body) is Err {
        Err(stated_retention(body)->Err_0)
    } else if required_bool(body, "retain_content"@) is Err {
        Err(required_bool(body, "retain_content"@)->Err_0)
    } else if required_bool(body, "retain_content"@)->Ok_0 && stated_expiry(body, now)->Ok_0 == 0 {
        Err(never_expires_note())
    } else if stated_learning(body) is Err {
        Err(stated_learning(body)->Err_0)
    } else if stated_users(body) is Err {
        Err(stated_users(body)->Err_0)
    } else {
        Ok(
            CreateModel {
                name: stated_name(body)->Ok_0,
                variants: stated_variants(body)->Ok_0,
                allowed_user_ids: stated_users(body)->Ok_0,
                feed_learning: stated_learning(body)->Ok_0,
                expires_at: stated_expiry(body, now)->Ok_0,
                retain_content: required_bool(body, "retain_content"@)->Ok_0,
                content_retention_days: stated_retention(body)->Ok_0,
            },
        )
    }
}

// ---------------------------------------------------------------------------
// Reading a create request
// ---------------------------------------------------------------------------

pub fn require<'a>(body: &'a Json, field: &str) -> (r: Result<&'a Json, String>)
    ensures
        match r {
            Ok(v) => required(body.model(), field@) == Ok::<JsonModel, Seq<char>>(v.model()),
            Err(e) => required(body.model(), field@) == Err::<JsonModel, Seq<char>>(e@),
        },
{
    match body.get(field) {
        None => Err(field.to_owned().concat(" is required")),
        Some(Json::Null) => Err(field.to_owned().concat(" is required")),
        Some(v) => Ok(v),
    }
}

pub fn require_bool(body: &Json, field: &str) -> (r: Result<bool, String>)
    ensures
        match r {
            Ok(b) => required_bool(body.model(), field@) == Ok::<bool, Seq<char>>(b),
            Err(e) => required_bool(body.model(), field@) == Err::<bool, Seq<char>>(e@),
        },
{
    match require(body, field) {
        Ok(v) => match v.as_bool() {
            Some(b) => Ok(b),
            None => Err(field.to_owned().concat(" must be a boolean")),
        },
        Err(e) => Err(e),
    }
}

pub fn parse_expires_at(body: &Json, now: Moment) -> (r: Result<i64, String>)
    ensures
        match r {
            Ok(t) => stated_expiry(body.model(), now) == Ok::<i64, Seq<char>>(t),
            Err(e) => stated_expiry(body.model(), now) == Err::<i64, Seq<char>>(e@),
        },
{
    match require(body, "expires_at") {
        Err(e) => Err(e),
        Ok(Json::PosInt(0)) => Ok(0),
        Ok(Json::NegInt(0)) => Ok(0),
        Ok(Json::Str(s)) => match parse_rfc3339(s.as_str()) {
            None => Err("expires_at must be an RFC3339 timestamp or 0 (never)".to_owned()),
            Some(t) => if t.is_after(&now) {
                Ok(t.secs)
            } else {
                Err("expires_at must be in the future".to_owned())
            },
        },
        Ok(_) => Err("expires_at must be an RFC3339 timestamp or 0 (never)".to_owned()),
    }
}

fn parse_name(body: &Json) -> (r: Result<String, String>)
    ensures
        match r {
            Ok(s) => stated_name(body.model()) == Ok::<Seq<char>, Seq<char>>(s@),
            Err(e) => stated_name(body.model()) == Err::<Seq<char>, Seq<char>>(e@),
        },
{
    match require(body, "name") {
        Err(e) => Err(e),
        Ok(v) => match v.as_str() {
            None => Err("name must be a string".to_owned()),
            Some(s) => {
                let name = trim(s);
                if name.is_empty() || name.unicode_len() > MAX_NAME_LEN {
                    let mut msg = "name must be 1-".to_owned();
                    msg.append(u64_text(MAX_NAME_LEN as u64).as_str());
                    msg.append(" characters");
                    Err(msg)
                } else {
                    Ok(name.to_owned())
                }
            },
        },
    }
}

fn prefix(label: &str, key: &str) -> (r: String)
    ensures
        r@ == entry_prefix(label@, key@),
{
    let mut msg = "variants: variant '".to_owned();
    msg.append(label);
    msg.append("' key '");
    msg.append(key);
    msg
}

fn parse_target(label: &str, key: &str, v: &Json) -> (r: Result<String, String>)
    ensures
        match r {
            Ok(t) => checked_target(label@, key@, v.model()) == Ok::<Seq<char>, Seq<char>>(t@),
            Err(e) => checked_target(label@, key@, v.model()) == Err::<Seq<char>, Seq<char>>(e@),
        },
{
    if key.is_empty() || key.unicode_len() > MAX_EXPR_LEN {
        let mut msg = prefix(label, key);
        msg.append("' must be 1-");
        msg.append(u64_text(MAX_EXPR_LEN as u64).as_str());
        msg.append(" characters");
        return Err(msg);
    }
    match v.as_str() {
        None => Err(prefix(label, key).concat("' target must be a string")),
        Some(t) => if t.is_empty() || t.unicode_len() > MAX_EXPR_LEN {
            let mut msg = prefix(label, key);
            msg.append("' target must be 1-");
            msg.append(u64_text(MAX_EXPR_LEN as u64).as_str());
            msg.append(" characters");
            Err(msg)
        } else {
            Ok(t.to_owned())
        },
    }
}

fn parse_overlay(label: &str, v: &Json) -> (r: Result<TextMap, String>)
    ensures
        match r {
            Ok(m) => checked_overlay(label@, v.model()) == Ok::<OverlayModel, Seq<char>>(m@),
            Err(e) => checked_overlay(label@, v.model()) == Err::<OverlayModel, Seq<char>>(e@),
        },
{
    if !is_valid_label(label) {
        let mut msg = "variants: label '".to_owned();
        msg.append(label);
        msg.append("' must match [A-Za-z0-9_.-]{1,");
        msg.append(u64_text(MAX_LABEL_LEN as u64).as_str());
        msg.append("}");
        return Err(msg);
    }
    let entries = match v.as_object() {
        Some(entries) => entries,
        None => {
            let mut msg = "variants: variant '".to_owned();
            msg.append(label);
            msg.append("' must be an object of requested model -> target");
            return Err(msg);
        },
    };
    let ghost all = entry_models(entries@);
    if entries.len() > MAX_OVERLAY_ENTRIES {
        let mut msg = "variants: variant '".to_owned();
        msg.append(label);
        msg.append("' has ");
        msg.append(u64_text(entries.len() as u64).as_str());
        msg.append(" entries; at most ");
        msg.append(u64_text(MAX_OVERLAY_ENTRIES as u64).as_str());
        msg.append(" allowed");
        return Err(msg);
    }
    let mut pinned = TextMap::new();
    let mut i: usize = 0;
    while i < entries.len()
        invariant
            i <= entries.len(),
            all == entry_models(entries@),
            v.model() == JsonModel::Obj(all),
            all.len() <= MAX_OVERLAY_ENTRIES,
            valid_label(label@),
            collected_targets(label@, all.take(i as int)) == Ok::<OverlayModel, Seq<char>>(pinned@),
        decreases entries.len() - i,
    {
        assert(all.take(i + 1).drop_last() =~= all.take(i as int));
        assert(all.take(i + 1).last() == all[i as int]);
        match parse_target(label, entries[i].0.as_str(), &entries[i].1) {
            Ok(t) => {
                pinned = pinned.insert(entries[i].0.clone(), t);
            },
            Err(e) => {
                proof {
                    lemma_target_error_stays(label@, all, i + 1);
                }
                return Err(e);
            },
        }
        i += 1;
    }
    assert(all.take(i as int) =~= all);
    Ok(pinned)
}

proof fn lemma_target_error_stays(
    label: Seq<char>,
    entries: Seq<(Seq<char>, JsonModel)>,
    n: int,
)
    requires
        0 <= n <= entries.len(),
        collected_targets(label, entries.take(n)) is Err,
    ensures
        collected_targets(label, entries) == collected_targets(label, entries.take(n)),
    decreases entries.len() - n,
{
    if n < entries.len() {
        assert(entries.take(n + 1).drop_last() =~= entries.take(n));
        lemma_target_error_stays(label, entries, n + 1);
    } else {
        assert(entries.take(n) =~= entries);
    }
}

proof fn lemma_overlay_error_stays(entries: Seq<(Seq<char>, JsonModel)>, n: int)
    requires
        0 <= n <= entries.len(),
        collected_overlays(entries.take(n)) is Err,
    ensures
        collected_overlays(entries) == collected_overlays(entries.take(n)),
    decreases entries.len() - n,
{
    if n < entries.len() {
        assert(entries.take(n + 1).drop_last() =~= entries.take(n));
        lemma_overlay_error_stays(entries, n + 1);
    } else {
        assert(entries.take(n) =~= entries);
    }
}

fn parse_variants(body: &Json) -> (r: Result<Vec<(String, TextMap)>, String>)
    ensures
        match r {
            Ok(v) => stated_variants(body.model()) == Ok::<
                Seq<(Seq<char>, OverlayModel)>,
                Seq<char>,
            >(variant_models(v@)),
            Err(e) => stated_variants(body.model()) == Err::<
                Seq<(Seq<char>, OverlayModel)>,
                Seq<char>,
            >(e@),
        },
{
    let value = match require(body, "variants") {
        Err(e) => {
            return Err(e);
        },
        Ok(v) => v,
    };
    let entries = match value.as_object() {
        Some(entries) => entries,
        None => {
            return Err("variants must be an object of label -> overlay".to_owned());
        },
    };
    let ghost all = entry_models(entries@);
    if entries.len() < MIN_VARIANTS || entries.len() > MAX_VARIANTS {
        let mut msg = "variants must have ".to_owned();
        msg.append(u64_text(MIN_VARIANTS as u64).as_str());
        msg.append("-");
        msg.append(u64_text(MAX_VARIANTS as u64).as_str());
        msg.append(" entries, got ");
        msg.append(u64_text(entries.len() as u64).as_str());
        return Err(msg);
    }
    let mut out: Vec<(String, TextMap)> = Vec::new();
    let mut i: usize = 0;
    assert(variant_models(out@) =~= Seq::empty());
    while i < entries.len()
        invariant
            i <= entries.len(),
            all == entry_models(entries@),
            required(body.model(), "variants"@) == Ok::<JsonModel, Seq<char>>(JsonModel::Obj(all)),
            MIN_VARIANTS <= all.len() <= MAX_VARIANTS,
            collected_overlays(all.take(i as int)) == Ok::<
                Seq<(Seq<char>, OverlayModel)>,
                Seq<char>,
            >(variant_models(out@)),
        decreases entries.len() - i,
    {
        assert(all.take(i + 1).drop_last() =~= all.take(i as int));
        assert(all.take(i + 1).last() == all[i as int]);
        match parse_overlay(entries[i].0.as_str(), &entries[i].1) {
            Ok(overlay) => {
                let ghost before = variant_models(out@);
                out.push((entries[i].0.clone(), overlay));
                assert(variant_models(out@) =~= before.push((all[i as int].0, overlay@)));
            },
            Err(e) => {
                proof {
                    lemma_overlay_error_stays(all, i + 1);
                }
                return Err(e);
            },
        }
        i += 1;
    }
    assert(all.take(i as int) =~= all);
    Ok(out)
}

fn parse_retention(body: &Json) -> (r: Result<i64, String>)
    ensures
        match r {
            Ok(n) => stated_retention(body.model()) == Ok::<i64, Seq<char>>(n),
            Err(e) => stated_retention(body.model()) == Err::<i64, Seq<char>>(e@),
        },
{
    match require(body, "content_retention_days") {
        Err(e) => Err(e),
        Ok(v) => match v.as_i64() {
            None => Err("content_retention_days must be an integer".to_owned()),
            Some(n) => if 0 <= n && n <= MAX_RETENTION_DAYS {
                Ok(n)
            } else {
                let mut msg = "content_retention_days must be 0-".to_owned();
                msg.append(i64_text(MAX_RETENTION_DAYS).as_str());
                msg.append(" (0 = forever)");
                Err(msg)
            },
        },
    }
}

fn parse_learning(body: &Json) -> (r: Result<bool, String>)
    ensures
        match r {
            Ok(b) => stated_learning(body.model()) == Ok::<bool, Seq<char>>(b),
            Err(e) => stated_learning(body.model()) == Err::<bool, Seq<char>>(e@),
        },
{
    match body.get("feed_learning") {
        None => Ok(false),
        Some(Json::Null) => Ok(false),
        Some(v) => match v.as_bool() {
            Some(b) => Ok(b),
            None => Err("feed_learning must be a boolean".to_owned()),
        },
    }
}

fn holds(ids: &Vec<i64>, id: i64) -> (r: bool)
    ensures
        r == ids@.contains(id),
{
    let mut i: usize = 0;
    while i < ids.len()
        invariant
            i <= ids.len(),
            forall|j: int| 0 <= j < i ==> ids@[j] != id,
        decreases ids.len() - i,
    {
        if ids[i] == id {
            return true;
        }
        i += 1;
    }
    false
}

proof fn lemma_id_error_stays(items: Seq<JsonModel>, n: int)
    requires
        0 <= n <= items.len(),
        distinct_ids(items.take(n)) is Err,
    ensures
        distinct_ids(items) == distinct_ids(items.take(n)),
    decreases items.len() - n,
{
    if n < items.len() {
        assert(items.take(n + 1).drop_last() =~= items.take(n));
        lemma_id_error_stays(items, n + 1);
    } else {
        assert(items.take(n) =~= items);
    }
}

fn parse_users(body: &Json) -> (r: Result<Vec<i64>, String>)
    ensures
        match r {
            Ok(ids) => stated_users(body.model()) == Ok::<Seq<i64>, Seq<char>>(ids@),
            Err(e) => stated_users(body.model()) == Err::<Seq<i64>, Seq<char>>(e@),
        },
{
    let value = match body.get("allowed_user_ids") {
        None => {
            return Ok(Vec::new());
        },
        Some(Json::Null) => {
            return Ok(Vec::new());
        },
        Some(v) => v,
    };
    let items = match value.as_array() {
        Some(items) => items,
        None => {
            return Err("allowed_user_ids must be an array of integers".to_owned());
        },
    };
    let ghost all = list_models(items@);
    if items.len() > MAX_ALLOWED_USERS {
        let mut msg = "allowed_user_ids must have at most ".to_owned();
        msg.append(u64_text(MAX_ALLOWED_USERS as u64).as_str());
        msg.append(" entries");
        return Err(msg);
    }
    let mut ids: Vec<i64> = Vec::new();
    let mut i: usize = 0;
    while i < items.len()
        invariant
            i <= items.len(),
            all == list_models(items@),
            body.model().field("allowed_user_ids"@) == Some(JsonModel::Arr(all)),
            all.len() <= MAX_ALLOWED_USERS,
            distinct_ids(all.take(i as int)) == Ok::<Seq<i64>, Seq<char>>(ids@),
        decreases items.len() - i,
    {
        assert(all.take(i + 1).drop_last() =~= all.take(i as int));
        assert(all.take(i + 1).last() == all[i as int]);
        match items[i].as_i64() {
            Some(id) => {
                if !holds(&ids, id) {
                    ids.push(id);
                }
            },
            None => {
                proof {
                    lemma_id_error_stays(all, i + 1);
                }
                return Err("allowed_user_ids must be an array of integers".to_owned());
            },
        }
        i += 1;
    }
    assert(all.take(i as int) =~= all);
    Ok(ids)
}

/// Reads a create request. Shape and bounds only: whether the name is free, the
/// users exist and the targets resolve is decided afterwards.
pub fn parse_create(body: &Json, now: Moment) -> (r: Result<ParsedCreate, String>)
    ensures
        outcome(r) == parsed_create(body.model(), now),
{
    if !body.is_object() {
        return Err("body must be a JSON object".to_owned());
    }
    let name = match parse_name(body) {
        Ok(name) => name,
        Err(e) => {
            return Err(e);
        },
    };
    let variants = match parse_variants(body) {
        Ok(variants) => variants,
        Err(e) => {
            return Err(e);
        },
    };
    let expires_at: i64 = match parse_expires_at(body, now) {
        Ok(t) => t,
        Err(e) => {
            return Err(e);
        },
    };
    let content_retention_days: i64 = match parse_retention(body) {
        Ok(n) => n,
        Err(e) => {
            return Err(e);
        },
    };
    let retain_content = match require_bool(body, "retain_content") {
        Ok(b) => b,
        Err(e) => {
            return Err(e);
        },
    };
    if retain_content && expires_at == 0 {
        return Err(
            "retain_content: true requires expires_at to be set; an experiment that never expires cannot retain content".to_owned(),
        );
    }
    let feed_learning = match parse_learning(body) {
        Ok(b) => b,
        Err(e) => {
            return Err(e);
        },
    };
    let allowed_user_ids = match parse_users(body) {
        Ok(ids) => ids,
        Err(e) => {
            return Err(e);
        },
    };
    Ok(
        ParsedCreate {
            name,
            variants,
            allowed_user_ids,
            feed_learning,
            expires_at,
            retain_content,
            content_retention_days,
        },
    )
}

// ---------------------------------------------------------------------------
// The pricing gate
// ---------------------------------------------------------------------------

/// What a target expression resolves to. `substituted` says that it is neither
/// an alias nor names a provider, so that the default model would stand in.
#[derive(Debug, Clone, PartialEq, Eq)]
pub struct Resolution {
    pub provider: String,
    pub model: String,
    pub substituted: bool,
}

/// What the router's configuration says of one target expression.
#[derive(Debug, Clone, PartialEq, Eq)]
pub struct TargetFacts {
    /// The expression names a load balancer pool.
    pub is_pool: bool,
    pub resolution: Resolution,
    /// The resolved provider is configured.
    pub provider_configured: bool,
    /// The pair of provider and model has a price.
    pub priced: bool,
}

pub open spec fn target_at(label: Seq<char>, key: Seq<char>, expr: Seq<char>) -> Seq<char> {
    "variants: variant '"@ + label + "' key '"@ + key + "' target '"@ + expr + "'"@
}

pub open spec fn pinned_pair(provider: Seq<char>, model: Seq<char>) -> Seq<char> {
    provider + "/"@ + model
}

/// Why a target may not be used, if it may not: a pool, a substitution, an
/// unknown provider or a pair without a price. The first that holds is named.
pub open spec fn target_refusal(
    label: Seq<char>,
    key: Seq<char>,
    expr: Seq<char>,
    f: TargetFacts,
) -> Option<Seq<char>> {
    let at = target_at(label, key, expr);
    if f.is_pool {
        Some(at + " is a load balancer pool; an experiment must pin one provider/model"@)
    } else if f.resolution.substituted {
        Some(
            at
                + " is not an alias or provider/model and would be substituted with the default model"@,
        )
    } else if !f.provider_configured {
        Some(at + " resolves to unconfigured provider '"@ + f.resolution.provider@ + "'"@)
    } else if !f.priced {
        Some(
            at + " resolves to '"@ + pinned_pair(f.resolution.provider@, f.resolution.model@)
                + "', which has no pricing entry"@,
        )
    } else {
        None
    }
}

/// Pins one target, or says which check it failed.
pub fn gate_target(label: &str, key: &str, expr: &str, facts: &TargetFacts) -> (r: Result<
    VariantTarget,
    String,
>)
    ensures
        match r {
            Ok(t) => {
                &&& target_refusal(label@, key@, expr@, *facts) is None
                &&& t.target@ == expr@
                &&& t.provider@ == facts.resolution.provider@
                &&& t.model@ == facts.resolution.model@
            },
            Err(e) => target_refusal(label@, key@, expr@, *facts) == Some(e@),
        },
{
    let mut at = "variants: variant '".to_owned();
    at.append(label);
    at.append("' key '");
    at.append(key);
    at.append("' target '");
    at.append(expr);
    at.append("'");
    if facts.is_pool {
        return Err(
            at.concat(" is a load balancer pool; an experiment must pin one provider/model"),
        );
    }
    if facts.resolution.substituted {
        return Err(
            at.concat(
                " is not an alias or provider/model and would be substituted with the default model",
            ),
        );
    }
    if !facts.provider_configured {
        at.append(" resolves to unconfigured provider '");
        at.append(facts.resolution.provider.as_str());
        at.append("'");
        return Err(at);
    }
    if !facts.priced {
        let mut pinned = facts.resolution.provider.clone();
        pinned.append("/");
        pinned.append(facts.resolution.model.as_str());
        at.append(" resolves to '");
        at.append(pinned.as_str());
        at.append("', which has no pricing entry");
        return Err(at);
    }
    Ok(
        VariantTarget {
            target: expr.to_owned(),
            provider: facts.resolution.provider.clone(),
            model: facts.resolution.model.clone(),
        },
    )
}

/// The first refusal among the first `n` entries of an overlay.
pub open spec fn overlay_refusal(
    label: Seq<char>,
    overlay: OverlayModel,
    facts: Seq<TargetFacts>,
    n: int,
) -> Option<Seq<char>>
    decreases n,
{
    if n <= 0 {
        None
    } else {
        match overlay_refusal(label, overlay, facts, n - 1) {
            Some(e) => Some(e),
            None => target_refusal(label, overlay[n - 1].0, overlay[n - 1].1, facts[n - 1]),
        }
    }
}

/// The first refusal among the first `n` variants.
pub open spec fn gate_refusal(
    variants: Seq<(Seq<char>, OverlayModel)>,
    facts: Seq<Vec<TargetFacts>>,
    n: int,
) -> Option<Seq<char>>
    decreases n,
{
    if n <= 0 {
        None
    } else {
        match gate_refusal(variants, facts, n - 1) {
            Some(e) => Some(e),
            None => overlay_refusal(
                variants[n - 1].0,
                variants[n - 1].1,
                facts[n - 1]@,
                variants[n - 1].1.len() as int,
            ),
        }
    }
}

/// Whether there are facts for every target of every variant.
pub open spec fn facts_cover(
    variants: Seq<(Seq<char>, OverlayModel)>,
    facts: Seq<Vec<TargetFacts>>,
) -> bool {
    &&& facts.len() == variants.len()
    &&& forall|i: int|
        0 <= i < variants.len() ==> (#[trigger] facts[i])@.len() == variants[i].1.len()
}

/// Whether an overlay was pinned entry by entry as its targets resolved.
pub open spec fn pinned_as(
    pinned: Seq<(String, VariantTarget)>,
    overlay: OverlayModel,
    facts: Seq<TargetFacts>,
) -> bool {
    &&& pinned.len() == overlay.len()
    &&& forall|j: int|
        0 <= j < pinned.len() ==> {
            &&& (#[trigger] pinned[j]).0@ == overlay[j].0
            &&& pinned[j].1.target@ == overlay[j].1
            &&& pinned[j].1.provider@ == facts[j].resolution.provider@
            &&& pinned[j].1.model@ == facts[j].resolution.model@
        }
}

proof fn lemma_overlay_refusal_stays(
    label: Seq<char>,
    overlay: OverlayModel,
    facts: Seq<TargetFacts>,
    n: int,
    m: int,
)
    requires
        n <= m,
        overlay_refusal(label, overlay, facts, n) is Some,
    ensures
        overlay_refusal(label, overlay, facts, m) == overlay_refusal(label, overlay, facts, n),
    decreases m - n,
{
    if n < m {
        lemma_overlay_refusal_stays(label, overlay, facts, n, m - 1);
    }
}

proof fn lemma_gate_refusal_stays(
    variants: Seq<(Seq<char>, OverlayModel)>,
    facts: Seq<Vec<TargetFacts>>,
    n: int,
    m: int,
)
    requires
        n <= m,
        gate_refusal(variants, facts, n) is Some,
    ensures
        gate_refusal(variants, facts, m) == gate_refusal(variants, facts, n),
    decreases m - n,
{
    if n < m {
        lemma_gate_refusal_stays(variants, facts, n, m - 1);
    }
}

fn gate_overlay(label: &str, overlay: &TextMap, facts: &Vec<TargetFacts>) -> (r: Result<
    PinnedOverlay,
    String,
>)
    requires
        facts@.len() == overlay@.len(),
    ensures
        match r {
            Ok(p) => {
                &&& overlay_refusal(label@, overlay@, facts@, overlay@.len() as int) is None
                &&& pinned_as(p@, overlay@, facts@)
            },
            Err(e) => overlay_refusal(label@, overlay@, facts@, overlay@.len() as int) == Some(e@),
        },
{
    let mut pinned: PinnedOverlay = Vec::new();
    let mut j: usize = 0;
    while j < overlay.len()
        invariant
            j <= overlay@.len(),
            facts@.len() == overlay@.len(),
            overlay_refusal(label@, overlay@, facts@, j as int) is None,
            pinned@.len() == j,
            forall|k: int|
                0 <= k < j ==> {
                    &&& (#[trigger] pinned@[k]).0@ == overlay@[k].0
                    &&& pinned@[k].1.target@ == overlay@[k].1
                    &&& pinned@[k].1.provider@ == facts@[k].resolution.provider@
                    &&& pinned@[k].1.model@ == facts@[k].resolution.model@
                },
        decreases overlay@.len() - j,
    {
        match gate_target(label, overlay.key(j).as_str(), overlay.value(j).as_str(), &facts[j]) {
            Ok(t) => {
                pinned.push((overlay.key(j).clone(), t));
            },
            Err(e) => {
                proof {
                    lemma_overlay_refusal_stays(
                        label@,
                        overlay@,
                        facts@,
                        j + 1,
                        overlay@.len() as int,
                    );
                }
                return Err(e);
            },
        }
        j += 1;
    }
    Ok(pinned)
}

/// Pins every target of every variant, or says which one was refused and why.
pub fn gate_variants(variants: &Vec<(String, TextMap)>, facts: &Vec<Vec<TargetFacts>>) -> (r: Result<
    Vec<(String, PinnedOverlay)>,
    String,
>)
    requires
        facts_cover(variant_models(variants@), facts@),
    ensures
        match r {
            Ok(out) => {
                &&& gate_refusal(variant_models(variants@), facts@, variants@.len() as int) is None
                &&& out@.len() == variants@.len()
                &&& forall|i: int|
                    0 <= i < out@.len() ==> (#[trigger] out@[i]).0@ == variants@[i].0@ && pinned_as(
                        out@[i].1@,
                        variants@[i].1@,
                        facts@[i]@,
                    )
            },
            Err(e) => gate_refusal(variant_models(variants@), facts@, variants@.len() as int)
                == Some(e@),
        },
{
    let ghost all = variant_models(variants@);
    let mut out: Vec<(String, PinnedOverlay)> = Vec::new();
    let mut i: usize = 0;
    while i < variants.len()
        invariant
            i <= variants@.len(),
            all == variant_models(variants@),
            facts_cover(all, facts@),
            gate_refusal(all, facts@, i as int) is None,
            out@.len() == i,
            forall|k: int|
                0 <= k < i ==> (#[trigger] out@[k]).0@ == variants@[k].0@ && pinned_as(
                    out@[k].1@,
                    variants@[k].1@,
                    facts@[k]@,
                ),
        decreases variants@.len() - i,
    {
        assert(all[i as int] == (variants@[i as int].0@, variants@[i as int].1@));
        assert(facts@[i as int]@.len() == all[i as int].1.len());
        match gate_overlay(variants[i].0.as_str(), &variants[i].1, &facts[i]) {
            Ok(p) => {
                out.push((variants[i].0.clone(), p));
            },
            Err(e) => {
                proof {
                    lemma_gate_refusal_stays(all, facts@, i + 1, variants@.len() as int);
                }
                return Err(e);
            },
        }
        i += 1;
    }
    Ok(out)
}

// ---------------------------------------------------------------------------
// Creating
// ---------------------------------------------------------------------------

/// What a lookup of a user found.
#[derive(Debug, Clone, Copy, PartialEq, Eq, Structural)]
pub enum Lookup {
    Found,
    Missing,
    Failed,
}

/// The first of the first `n` users on the allow list that cannot be admitted,
/// with what its lookup found.
pub open spec fn first_unadmitted(ids: Seq<i64>, found: Seq<Lookup>, n: int) -> Option<
    (i64, Lookup),
>
    decreases n,
{
    if n <= 0 {
        None
    } else {
        match first_unadmitted(ids, found, n - 1) {
            Some(x) => Some(x),
            None => if found[n - 1] == Lookup::Found {
                None
            } else {
                Some((ids[n - 1], found[n - 1]))
            },
        }
    }
}

proof fn lemma_unadmitted_stays(ids: Seq<i64>, found: Seq<Lookup>, n: int, m: int)
    requires
        n <= m,
        first_unadmitted(ids, found, n) is Some,
    ensures
        first_unadmitted(ids, found, m) == first_unadmitted(ids, found, n),
    decreases m - n,
{
    if n < m {
        lemma_unadmitted_stays(ids, found, n, m - 1);
    }
}

/// Admits the users on the allow list: each must exist.
pub fn admit_users(ids: &Vec<i64>, found: &Vec<Lookup>) -> (r: Result<(), ApiError>)
    requires
        ids@.len() == found@.len(),
    ensures
        match first_unadmitted(ids@, found@, ids@.len() as int) {
            None => r is Ok,
            Some((id, Lookup::Missing)) => r matches Err(ApiError::InvalidRequest(msg)) && msg@
                == "allowed_user_ids: no user with id "@ + int_text(id as int),
            Some(_) => r == Err::<(), ApiError>(ApiError::Internal),
        },
{
    let mut i: usize = 0;
    while i < ids.len()
        invariant
            i <= ids@.len(),
            ids@.len() == found@.len(),
            first_unadmitted(ids@, found@, i as int) is None,
        decreases ids@.len() - i,
    {
        match found[i] {
            Lookup::Found => {},
            Lookup::Missing => {
                proof {
                    lemma_unadmitted_stays(ids@, found@, i + 1, ids@.len() as int);
                }
                return Err(
                    ApiError::InvalidRequest(
                        "allowed_user_ids: no user with id ".to_owned().concat(
                            i64_text(ids[i]).as_str(),
                        ),
                    ),
                );
            },
            Lookup::Failed => {
                proof {
                    lemma_unadmitted_stays(ids@, found@, i + 1, ids@.len() as int);
                }
                return Err(ApiError::Internal);
            },
        }
        i += 1;
    }
    Ok(())
}

/// The row to store for a request whose targets were pinned.
pub fn new_experiment(parsed: ParsedCreate, variants: Vec<(String, PinnedOverlay)>) -> (r:
    NewExperiment)
    ensures
        r.name == parsed.name,
        r.variants == variants,
        r.allowed_user_ids == parsed.allowed_user_ids,
        r.feed_learning == parsed.feed_learning,
        r.expires_at == parsed.expires_at,
        r.retain_content == parsed.retain_content,
        r.content_retention_days == parsed.content_retention_days,
{
    NewExperiment {
        name: parsed.name,
        variants,
        allowed_user_ids: parsed.allowed_user_ids,
        feed_learning: parsed.feed_learning,
        expires_at: parsed.expires_at,
        retain_content: parsed.retain_content,
        content_retention_days: parsed.content_retention_days,
    }
}

/// What a failed insert is answered with. Names are unique, so the constraint is
/// the duplicate check.
pub fn create_error(name: &str, unique_violation: bool) -> (r: ApiError)
    ensures
        unique_violation ==> (r matches ApiError::InvalidRequest(msg) && msg@ == "name '"@ + name@
            + "' is already taken"@),
        !unique_violation ==> r == ApiError::Internal,
{
    if unique_violation {
        let mut msg = "name '".to_owned();
        msg.append(name);
        msg.append("' is already taken");
        ApiError::InvalidRequest(msg)
    } else {
        ApiError::Internal
    }
}

// ---------------------------------------------------------------------------
// Finding, listing and closing
// ---------------------------------------------------------------------------

/// The id in a path: a positive whole number.
pub open spec fn positive_id(id: Seq<char>) -> Option<i64> {
    match i64_of_text(id) {
        Some(n) => if n > 0 {
            Some(n)
        } else {
            None
        },
        None => None,
    }
}

pub fn parse_id(id: &str) -> (r: Result<i64, ApiError>)
    ensures
        match positive_id(id@) {
            Some(n) => r == Ok::<i64, ApiError>(n),
            None => r matches Err(ApiError::InvalidRequest(msg)) && msg@ == "invalid experiment id: "@
                + id@,
        },
{
    if let Some(n) = parse_i64(id) {
        if n > 0 {
            return Ok(n);
        }
    }
    Err(ApiError::InvalidRequest("invalid experiment id: ".to_owned().concat(id)))
}

pub struct ListExperimentsQuery {
    pub status: Option<String>,
}

#[derive(Debug, Clone, Copy, PartialEq, Eq, Structural)]
pub enum ExperimentStatusFilter {
    Active,
    Closed,
    All,
}

/// The filter that a `status` asks for; active experiments where it is absent
/// or blank.
pub open spec fn status_filter_of(status: Option<Seq<char>>) -> Option<ExperimentStatusFilter> {
    match status {
        None => Some(ExperimentStatusFilter::Active),
        Some(s) => {
            let t = trimmed(s);
            if t == ""@ || t == "active"@ {
                Some(ExperimentStatusFilter::Active)
            } else if t == "closed"@ {
                Some(ExperimentStatusFilter::Closed)
            } else if t == "all"@ {
                Some(ExperimentStatusFilter::All)
            } else {
                None
            }
        },
    }
}

pub fn status_filter(query: &ListExperimentsQuery) -> (r: Result<ExperimentStatusFilter, ApiError>)
    ensures
        match status_filter_of(opt_text(query.status)) {
            Some(f) => r == Ok::<ExperimentStatusFilter, ApiError>(f),
            None => r matches Err(ApiError::InvalidRequest(msg)) && msg@
                == "status must be active, closed or all, got '"@ + trimmed(query.status->0@) + "'"@,
        },
{
    match &query.status {
        None => Ok(ExperimentStatusFilter::Active),
        Some(s) => {
            let t = trim(s.as_str());
            if same(t, "") || same(t, "active") {
                Ok(ExperimentStatusFilter::Active)
            } else if same(t, "closed") {
                Ok(ExperimentStatusFilter::Closed)
            } else if same(t, "all") {
                Ok(ExperimentStatusFilter::All)
            } else {
                let mut msg = "status must be active, closed or all, got '".to_owned();
                msg.append(t);
                msg.append("'");
                Err(ApiError::InvalidRequest(msg))
            }
        },
    }
}

/// The words for an experiment that is not there.
pub open spec fn no_experiment(id: i64) -> Seq<char> {
    "no experiment with id "@ + int_text(id as int)
}

pub fn no_experiment_text(id: i64) -> (r: String)
    ensures
        r@ == no_experiment(id),
{
    "no experiment with id ".to_owned().concat(i64_text(id).as_str())
}

pub open spec fn already_closed(id: i64) -> Seq<char> {
    "experiment "@ + int_text(id as int) + " is already closed"@
}

fn already_closed_error(id: i64) -> (r: ApiError)
    ensures
        r matches ApiError::InvalidRequest(msg) && msg@ == already_closed(id),
{
    let mut msg = "experiment ".to_owned();
    msg.append(i64_text(id).as_str());
    msg.append(" is already closed");
    ApiError::InvalidRequest(msg)
}

/// Whether an experiment that was looked up may be closed: it must be there and
/// open.
pub fn may_close(id: i64, found: &Option<Experiment>) -> (r: Result<(), ApiError>)
    ensures
        match found {
            None => r matches Err(ApiError::InvalidRequest(msg)) && msg@ == no_experiment(id),
            Some(e) => if e.closed_at is Some {
                r matches Err(ApiError::InvalidRequest(msg)) && msg@ == already_closed(id)
            } else {
                r is Ok
            },
        },
{
    match found {
        None => Err(ApiError::InvalidRequest(no_experiment_text(id))),
        Some(e) => if e.closed_at.is_some() {
            Err(already_closed_error(id))
        } else {
            Ok(())
        },
    }
}

/// What closing comes to: the write changes nothing where another operator, or
/// the expiry of the experiment, came first.
pub fn close_outcome(id: i64, changed: bool) -> (r: Result<(), ApiError>)
    ensures
        changed ==> r is Ok,
        !changed ==> (r matches Err(ApiError::InvalidRequest(msg)) && msg@ == already_closed(id)),
{
    if changed {
        Ok(())
    } else {
        Err(already_closed_error(id))
    }
}

// ---------------------------------------------------------------------------
// The audit row
// ---------------------------------------------------------------------------

pub open spec fn status_text(status: ExperimentStatus) -> Seq<char> {
    match status {
        ExperimentStatus::Active => "active"@,
        ExperimentStatus::Closed => "closed"@,
    }
}

impl ExperimentStatus {
    pub fn as_str(&self) -> (r: &'static str)
        ensures
            r@ == status_text(*self),
    {
        match self {
            ExperimentStatus::Active => "active",
            ExperimentStatus::Closed => "closed",
        }
    }
}

pub open spec fn target_object(t: VariantTarget) -> JsonModel {
    JsonModel::Obj(
        with_entry(
            with_entry(
                with_entry(Seq::empty(), "target"@, JsonModel::Str(t.target@)),
                "provider"@,
                JsonModel::Str(t.provider@),
            ),
            "model"@,
            JsonModel::Str(t.model@),
        ),
    )
}

pub open spec fn overlay_entries(overlay: Seq<(String, VariantTarget)>) -> Seq<
    (Seq<char>, JsonModel),
>
    decreases overlay.len(),
{
    if overlay.len() == 0 {
        Seq::empty()
    } else {
        with_entry(
            overlay_entries(overlay.drop_last()),
            overlay.last().0@,
            target_object(overlay.last().1),
        )
    }
}

pub open spec fn variant_entries(variants: Seq<(String, PinnedOverlay)>) -> Seq<
    (Seq<char>, JsonModel),
>
    decreases variants.len(),
{
    if variants.len() == 0 {
        Seq::empty()
    } else {
        with_entry(
            variant_entries(variants.drop_last()),
            variants.last().0@,
            JsonModel::Obj(overlay_entries(variants.last().1@)),
        )
    }
}

/// A number of which zero means never, spelled out.
pub open spec fn or_never(n: i64) -> JsonModel {
    if n == 0 {
        JsonModel::Str("never"@)
    } else {
        JsonModel::Int(n as int)
    }
}

pub open spec fn ids_array(ids: Seq<i64>) -> JsonModel {
    JsonModel::Arr(ids.map_values(|n: i64| JsonModel::Int(n as int)))
}

/// The experiment as the audit log records it: the stored row, except that a
/// zero that means never is spelled out.
pub open spec fn audit_object(e: Experiment) -> JsonModel {
    let o = with_entry(Seq::empty(), "id"@, JsonModel::Int(e.id as int));
    let o = with_entry(o, "name"@, JsonModel::Str(e.name@));
    let o = with_entry(o, "variants"@, JsonModel::Obj(variant_entries(e.variants@)));
    let o = with_entry(o, "allowed_user_ids"@, ids_array(e.allowed_user_ids@));
    let o = with_entry(o, "status"@, JsonModel::Str(status_text(e.status)));
    let o = with_entry(o, "feed_learning"@, JsonModel::Bool(e.feed_learning));
    let o = with_entry(o, "expires_at"@, or_never(e.expires_at));
    let o = with_entry(o, "created_at"@, JsonModel::Str(e.created_at@));
    let o = with_entry(o, "closed_at"@, text_or_null(opt_text(e.closed_at)));
    let o = with_entry(o, "retain_content"@, JsonModel::Bool(e.retain_content));
    let o = with_entry(o, "content_retention_days"@, or_never(e.content_retention_days));
    JsonModel::Obj(o)
}

fn never_or(n: i64) -> (r: Json)
    ensures
        r.model() == or_never(n),
        r.wf(),
{
    if n == 0 {
        Json::Str("never".to_owned())
    } else {
        json_int(n)
    }
}

fn overlay_json(overlay: &PinnedOverlay) -> (r: Json)
    ensures
        r.model() == JsonModel::Obj(overlay_entries(overlay@)),
        r.wf(),
{
    let mut o = Json::object();
    let mut i: usize = 0;
    while i < overlay.len()
        invariant
            i <= overlay.len(),
            o.model() == JsonModel::Obj(overlay_entries(overlay@.take(i as int))),
            o.wf(),
        decreases overlay.len() - i,
    {
        assert(overlay@.take(i + 1).drop_last() =~= overlay@.take(i as int));
        let t = &overlay[i].1;
        let target = Json::object().with("target", Json::Str(t.target.clone())).with(
            "provider",
            Json::Str(t.provider.clone()),
        ).with("model", Json::Str(t.model.clone()));
        o = o.with(overlay[i].0.as_str(), target);
        i += 1;
    }
    assert(overlay@.take(i as int) =~= overlay@);
    o
}

fn variants_json(variants: &Vec<(String, PinnedOverlay)>) -> (r: Json)
    ensures
        r.model() == JsonModel::Obj(variant_entries(variants@)),
        r.wf(),
{
    let mut o = Json::object();
    let mut i: usize = 0;
    while i < variants.len()
        invariant
            i <= variants.len(),
            o.model() == JsonModel::Obj(variant_entries(variants@.take(i as int))),
            o.wf(),
        decreases variants.len() - i,
    {
        assert(variants@.take(i + 1).drop_last() =~= variants@.take(i as int));
        o = o.with(variants[i].0.as_str(), overlay_json(&variants[i].1));
        i += 1;
    }
    assert(variants@.take(i as int) =~= variants@);
    o
}

fn ids_json(ids: &Vec<i64>) -> (r: Json)
    ensures
        r.model() == ids_array(ids@),
        r.wf(),
{
    let mut out: Vec<Json> = Vec::new();
    let mut i: usize = 0;
    let ghost want = ids_array(ids@)->Arr_0;
    while i < ids.len()
        invariant
            i <= ids.len(),
            want == ids_array(ids@)->Arr_0,
            list_models(out@) == want.take(i as int),
        decreases ids.len() - i,
    {
        let ghost before = list_models(out@);
        let item = json_int(ids[i]);
        out.push(item);
        assert(list_models(out@) =~= before.push(item.model()));
        assert(list_models(out@) =~= want.take(i + 1));
        i += 1;
    }
    proof {
        Json::lemma_arr(out);
        assert(list_models(out@) =~= want);
        assert forall|k: int| 0 <= k < want.len() implies (#[trigger] want[k]).wf() by {}
    }
    Json::Arr(out)
}

/// The experiment as it goes into the audit log.
pub fn audit_row(e: &Experiment) -> (r: Json)
    ensures
        r.model() == audit_object(*e),
        r.wf(),
{
    Json::object().with("id", json_int(e.id)).with("name", Json::Str(e.name.clone())).with(
        "variants",
        variants_json(&e.variants),
    ).with("allowed_user_ids", ids_json(&e.allowed_user_ids)).with(
        "status",
        Json::Str(e.status.as_str().to_owned()),
    ).with("feed_learning", Json::Bool(e.feed_learning)).with(
        "expires_at",
        never_or(e.expires_at),
    ).with("created_at", Json::Str(e.created_at.clone())).with(
        "closed_at",
        json_text_or_null(&e.closed_at),
    ).with("retain_content", Json::Bool(e.retain_content)).with(
        "content_retention_days",
        never_or(e.content_retention_days),
    )
}

/// The audit line of a new experiment.
pub fn experiment_created(session: &SuperAdminSession, e: &Experiment) -> (r: NewAuditLogEntry)
    ensures
        r@ == entry_of(
            session.0,
            "experiment.create"@,
            named("experiment"@, e.id),
            Some(text_of_json(audit_object(*e))),
        ),
{
    let row = audit_row(e).to_text();
    entry(&session.0, "experiment.create", name_of("experiment", e.id), Some(row))
}

/// What closing an experiment changes of it.
pub open spec fn closing_json(e: Experiment) -> Seq<char> {
    let o = with_entry(Seq::empty(), "status"@, JsonModel::Str(status_text(e.status)));
    text_of_json(JsonModel::Obj(with_entry(o, "closed_at"@, text_or_null(opt_text(e.closed_at)))))
}

fn closing_text(e: &Experiment) -> (r: String)
    ensures
        r@ == closing_json(*e),
{
    Json::object().with("status", Json::Str(e.status.as_str().to_owned())).with(
        "closed_at",
        json_text_or_null(&e.closed_at),
    ).to_text()
}

/// The audit line of a closed experiment.
pub fn experiment_closed(
    session: &SuperAdminSession,
    id: i64,
    before: &Experiment,
    after: &Experiment,
) -> (r: NewAuditLogEntry)
    ensures
        r@ == change_of(
            session.0,
            "experiment.close"@,
            named("experiment"@, id),
            Some(closing_json(*before)),
            Some(closing_json(*after)),
        ),
{
    change(
        &session.0,
        "experiment.close",
        name_of("experiment", id),
        Some(closing_text(before)),
        Some(closing_text(after)),
    )
}

// ---------------------------------------------------------------------------
// Pages of runs
// ---------------------------------------------------------------------------

/// Page bounds for the list of runs.
pub const DEFAULT_RUN_LIMIT: i64 = 200;

pub const MAX_RUN_LIMIT: i64 = 1000;

/// One page of the list of runs.
#[derive(Debug, Clone, Copy, PartialEq, Eq, Structural)]
pub struct RunPage {
    pub limit: i64,
    pub offset: i64,
}

impl Default for RunPage {
    fn default() -> (r: RunPage)
        ensures
            r == (RunPage { limit: DEFAULT_RUN_LIMIT, offset: 0 }),
    {
        RunPage { limit: DEFAULT_RUN_LIMIT, offset: 0 }
    }
}

/// A number in a query, without the white space around it: the default where it
/// is absent or blank, and nothing where it is no number from `lo` to `hi`.
pub open spec fn query_number(raw: Option<Seq<char>>, default: i64, lo: int, hi: int) -> Option<
    i64,
> {
    match raw {
        None => Some(default),
        Some(s) => if trimmed(s) == ""@ {
            Some(default)
        } else {
            match i64_of_text(trimmed(s)) {
                Some(n) => if lo <= n <= hi {
                    Some(n)
                } else {
                    None
                },
                None => None,
            }
        },
    }
}

fn read_number(raw: Option<&str>, default: i64, lo: i64, hi: i64) -> (r: Option<i64>)
    ensures
        r == query_number(opt_str(raw), default, lo as int, hi as int),
{
    match raw {
        None => Some(default),
        Some(s) => {
            let t = trim(s);
            if same(t, "") {
                return Some(default);
            }
            match parse_i64(t) {
                Some(n) => if lo <= n && n <= hi {
                    Some(n)
                } else {
                    None
                },
                None => None,
            }
        },
    }
}

impl RunPage {
    /// The page that two query values ask for, or the words for the field at
    /// fault.
    pub open spec fn parsed(limit: Option<Seq<char>>, offset: Option<Seq<char>>) -> Result<
        RunPage,
        Seq<char>,
    > {
        match (
            query_number(limit, DEFAULT_RUN_LIMIT, 1, MAX_RUN_LIMIT as int),
            query_number(offset, 0, 0, i64::MAX as int),
        ) {
            (None, _) => Err("limit must be an integer between 1 and "@ + int_text(MAX_RUN_LIMIT as int)),
            (Some(_), None) => Err("offset must be an integer of at least 0"@),
            (Some(l), Some(o)) => Ok(RunPage { limit: l, offset: o }),
        }
    }

    /// Reads the two query values. Errors name the field at fault.
    pub fn parse(limit: Option<&str>, offset: Option<&str>) -> (r: Result<RunPage, String>)
        ensures
            match RunPage::parsed(opt_str(limit), opt_str(offset)) {
                Ok(p) => r == Ok::<RunPage, String>(p),
                Err(message) => r matches Err(e) && e@ == message,
            },
    {
        let limit: i64 = match read_number(limit, DEFAULT_RUN_LIMIT, 1, MAX_RUN_LIMIT) {
            Some(n) => n,
            None => {
                return Err(
                    "limit must be an integer between 1 and ".to_owned().concat(
                        i64_text(MAX_RUN_LIMIT).as_str(),
                    ),
                );
            },
        };
        let offset: i64 = match read_number(offset, 0, 0, i64::MAX) {
            Some(n) => n,
            None => {
                return Err("offset must be an integer of at least 0".to_owned());
            },
        };
        Ok(RunPage { limit, offset })
    }
}

// ---------------------------------------------------------------------------
// Laws
// ---------------------------------------------------------------------------

/// An experiment that retains content ends at some time.
pub proof fn retained_content_expires(body: JsonModel, now: Moment, c: CreateModel)
    requires
        parsed_create(body, now) == Ok::<CreateModel, Seq<char>>(c),
        c.retain_content,
    ensures
        c.expires_at != 0,
{
}

proof fn lemma_distinct_ids(items: Seq<JsonModel>)
    ensures
        distinct_ids(items) matches Ok(ids) ==> ids.no_duplicates() && ids.len() <= items.len(),
    decreases items.len(),
{
    if items.len() > 0 {
        lemma_distinct_ids(items.drop_last());
    }
}

proof fn lemma_collected_targets(label: Seq<char>, entries: Seq<(Seq<char>, JsonModel)>)
    ensures
        collected_targets(label, entries) matches Ok(v) ==> v.len() <= entries.len(),
    decreases entries.len(),
{
    if entries.len() > 0 {
        lemma_collected_targets(label, entries.drop_last());
        if let (Ok(rest), Ok(t)) = (
            collected_targets(label, entries.drop_last()),
            checked_target(label, entries.last().0, entries.last().1),
        ) {
            lemma_with_entry_members(rest, entries.last().0, t);
        }
    }
}

proof fn lemma_collected_overlays(entries: Seq<(Seq<char>, JsonModel)>)
    ensures
        collected_overlays(entries) matches Ok(v) ==> {
            &&& v.len() == entries.len()
            &&& forall|i: int|
                0 <= i < v.len() ==> (#[trigger] v[i]).0 == entries[i].0 && valid_label(v[i].0)
                    && v[i].1.len() <= MAX_OVERLAY_ENTRIES
        },
    decreases entries.len(),
{
    if entries.len() > 0 {
        lemma_collected_overlays(entries.drop_last());
        if let JsonModel::Obj(targets) = entries.last().1 {
            lemma_collected_targets(entries.last().0, targets);
        }
    }
}

/// What every accepted create request satisfies: a name, between 2 and 16
/// variants with labels that fit the header and no more than 32 entries each, no
/// user twice, and a retention within its bounds.
pub proof fn accepted_experiments_are_bounded(body: JsonModel, now: Moment, c: CreateModel)
    requires
        parsed_create(body, now) == Ok::<CreateModel, Seq<char>>(c),
    ensures
        0 < c.name.len() <= MAX_NAME_LEN,
        MIN_VARIANTS <= c.variants.len() <= MAX_VARIANTS,
        forall|i: int| 0 <= i < c.variants.len() ==> valid_label((#[trigger] c.variants[i]).0)
            && c.variants[i].1.len() <= MAX_OVERLAY_ENTRIES,
        c.allowed_user_ids.no_duplicates(),
        c.allowed_user_ids.len() <= MAX_ALLOWED_USERS,
        0 <= c.content_retention_days <= MAX_RETENTION_DAYS,
{
    if let Ok(JsonModel::Obj(entries)) = required(body, "variants"@) {
        lemma_collected_overlays(entries);
    }
    if let Some(JsonModel::Arr(items)) = body.field("allowed_user_ids"@) {
        lemma_distinct_ids(items);
    }
}

/// A target that is let through is one provider and model, configured and with
/// a price, and not the default model in disguise.
pub proof fn pinned_targets_are_accounted_for(
    label: Seq<char>,
    key: Seq<char>,
    expr: Seq<char>,
    facts: TargetFacts,
)
    requires
        target_refusal(label, key, expr, facts) is None,
    ensures
        !facts.is_pool,
        !facts.resolution.substituted,
        facts.provider_configured,
        facts.priced,
{
}

proof fn lemma_no_overlay_refusal(
    label: Seq<char>,
    overlay: OverlayModel,
    facts: Seq<TargetFacts>,
    n: int,
    j: int,
)
    requires
        0 <= j < n,
        overlay_refusal(label, overlay, facts, n) is None,
    ensures
        target_refusal(label, overlay[j].0, overlay[j].1, facts[j]) is None,
    decreases n,
{
    if j < n - 1 {
        lemma_no_overlay_refusal(label, overlay, facts, n - 1, j);
    }
}

/// An experiment whose variants are let through sends traffic only where its cost
/// is known.
pub proof fn gated_experiments_are_priced(
    variants: Seq<(Seq<char>, OverlayModel)>,
    facts: Seq<Vec<TargetFacts>>,
    n: int,
    i: int,
    j: int,
)
    requires
        facts_cover(variants, facts),
        gate_refusal(variants, facts, n) is None,
        0 <= i < n <= variants.len(),
        0 <= j < variants[i].1.len(),
    ensures
        facts[i]@[j].priced && facts[i]@[j].provider_configured && !facts[i]@[j].is_pool,
    decreases n,
{
    if i == n - 1 {
        lemma_no_overlay_refusal(
            variants[i].0,
            variants[i].1,
            facts[i]@,
            variants[i].1.len() as int,
            j,
        );
    } else {
        gated_experiments_are_priced(variants, facts, n - 1, i, j);
    }
}

/// An experiment that is accepted is the one the body states, member by member.
pub proof fn experiments_are_as_stated(body: JsonModel, now: Moment, c: CreateModel, b: bool)
    requires
        parsed_create(body, now) == Ok::<CreateModel, Seq<char>>(c),
    ensures
        body.at("name"@) matches JsonModel::Str(s) && c.name == trimmed(s),
        body.at("retain_content"@) == JsonModel::Bool(c.retain_content),
        body.at("content_retention_days"@).signed() == Some(c.content_retention_days),
        body.at("feed_learning"@) == JsonModel::Bool(b) ==> c.feed_learning == b,
        body.at("feed_learning"@) is Null ==> !c.feed_learning,
        body.at("expires_at"@) matches JsonModel::Str(s) ==> (rfc3339_moment(s) matches Some(t)
            && t.later_than(now) && c.expires_at == t.secs),
        body.at("expires_at"@) is Int ==> c.expires_at == 0,
        body.at("allowed_user_ids"@) is Null ==> c.allowed_user_ids.len() == 0,
        body.at("allowed_user_ids"@) matches JsonModel::Arr(items) ==> distinct_ids(items) == Ok::<
            Seq<i64>,
            Seq<char>,
        >(c.allowed_user_ids),
        body.at("variants"@) matches JsonModel::Obj(entries) && collected_overlays(entries) == Ok::<
            Seq<(Seq<char>, OverlayModel)>,
            Seq<char>,
        >(c.variants),
{
}

/// The users who may take part are those listed, each once.
pub proof fn listed_users_may_take_part(items: Seq<JsonModel>, ids: Seq<i64>)
    requires
        distinct_ids(items) == Ok::<Seq<i64>, Seq<char>>(ids),
    ensures
        ids.no_duplicates(),
        forall|i: int| 0 <= i < items.len() ==> (#[trigger] items[i]).signed() is Some,
        forall|id: i64| #[trigger]
            ids.contains(id) <==> exists|i: int|
                0 <= i < items.len() && (#[trigger] items[i]).signed() == Some(id),
    decreases items.len(),
{
    if items.len() > 0 {
        let front = items.drop_last();
        let rest = distinct_ids(front)->Ok_0;
        let n = items.len() - 1;
        listed_users_may_take_part(front, rest);
        assert(items[n] == items.last());
        assert(forall|i: int| 0 <= i < front.len() ==> #[trigger] front[i] == items[i]);
        assert forall|i: int| 0 <= i < items.len() implies (#[trigger] items[i]).signed() is Some by {
            if i < n {
                assert(front[i].signed() is Some);
            }
        }
        assert forall|id: i64| #[trigger] ids.contains(id) <==> exists|i: int|
            0 <= i < items.len() && (#[trigger] items[i]).signed() == Some(id) by {
            if ids.contains(id) {
                let k = choose|k: int| 0 <= k < ids.len() && ids[k] == id;
                if k < rest.len() {
                    assert(rest[k] == id);
                    assert(rest.contains(id));
                    let i = choose|i: int|
                        0 <= i < front.len() && (#[trigger] front[i]).signed() == Some(id);
                    assert(items[i].signed() == Some(id));
                } else {
                    assert(items[n].signed() == Some(id));
                }
            }
            if exists|i: int| 0 <= i < items.len() && (#[trigger] items[i]).signed() == Some(id) {
                let i = choose|i: int|
                    0 <= i < items.len() && (#[trigger] items[i]).signed() == Some(id);
                if i < n {
                    assert(front[i].signed() == Some(id));
                    assert(rest.contains(id));
                }
                if rest.contains(id) {
                    let k = choose|k: int| 0 <= k < rest.len() && rest[k] == id;
                    assert(ids[k] == id);
                } else {
                    assert(ids[rest.len() as int] == id);
                }
            }
        }
    }
}

/// The variants are those of the body, in their order, each under its own label.
pub proof fn variants_keep_their_order(
    entries: Seq<(Seq<char>, JsonModel)>,
    v: Seq<(Seq<char>, OverlayModel)>,
    i: int,
)
    requires
        collected_overlays(entries) == Ok::<Seq<(Seq<char>, OverlayModel)>, Seq<char>>(v),
        0 <= i < entries.len(),
    ensures
        v.len() == entries.len(),
        v[i].0 == entries[i].0,
        valid_label(v[i].0),
        entries[i].1 matches JsonModel::Obj(targets) && collected_targets(entries[i].0, targets) == Ok::<
            OverlayModel,
            Seq<char>,
        >(v[i].1),
    decreases entries.len(),
{
    let front = entries.drop_last();
    let rest = collected_overlays(front)->Ok_0;
    assert(entries[entries.len() - 1] == entries.last());
    if front.len() > 0 {
        variants_keep_their_order(front, rest, 0);
    }
    if i < front.len() {
        variants_keep_their_order(front, rest, i);
        assert(front[i] == entries[i]);
    }
}

/// A variant sends each model it names to the target it names for it.
pub proof fn overlays_keep_their_targets(
    label: Seq<char>,
    entries: Seq<(Seq<char>, JsonModel)>,
    overlay: OverlayModel,
    i: int,
)
    requires
        collected_targets(label, entries) == Ok::<OverlayModel, Seq<char>>(overlay),
        0 <= i < entries.len(),
        forall|j: int| i < j < entries.len() ==> (#[trigger] entries[j]).0 != entries[i].0,
    ensures
        entries[i].1 matches JsonModel::Str(t) && lookup(overlay, entries[i].0) == Some(t) && 1
            <= t.len() <= 128,
        1 <= entries[i].0.len() <= 128,
    decreases entries.len(),
{
    broadcast use {
        crate::ordered::entries_are_found,
        crate::ordered::nothing_is_found_in_nothing,
    };

    let front = entries.drop_last();
    assert(entries[entries.len() - 1] == entries.last());
    if i < front.len() {
        assert forall|j: int| i < j < front.len() implies (#[trigger] front[j]).0 != front[i].0 by {
            assert(front[j] == entries[j]);
        }
        overlays_keep_their_targets(label, front, collected_targets(label, front)->Ok_0, i);
    }
}

/// A target is refused where it is a pool, would be replaced by the default, leads to a
/// provider that is not set up, or has no price; and only then.
pub proof fn targets_are_refused_for_a_reason(label: Seq<char>, key: Seq<char>, expr: Seq<char>, f: TargetFacts)
    ensures
        target_refusal(label, key, expr, f) is None <==> !f.is_pool && !f.resolution.substituted
            && f.provider_configured && f.priced,
        target_at(label, key, expr) == "variants: variant '"@ + label + "' key '"@ + key + "' target '"@
            + expr + "'"@,
        !f.is_pool && !f.resolution.substituted && !f.provider_configured ==> target_refusal(
            label,
            key,
            expr,
            f,
        ) == Some(
            target_at(label, key, expr) + " resolves to unconfigured provider '"@ + f.resolution.provider@
                + "'"@,
        ),
        !f.is_pool && !f.resolution.substituted && f.provider_configured && !f.priced ==> target_refusal(
            label,
            key,
            expr,
            f,
        ) == Some(
            target_at(label, key, expr) + " resolves to '"@ + (f.resolution.provider@ + "/"@
                + f.resolution.model@) + "', which has no pricing entry"@,
        ),
{
}

/// A user is named where they are the first that could not be found; nobody is where all
/// were.
pub proof fn the_first_unknown_user_is_named(ids: Seq<i64>, found: Seq<Lookup>, n: int, i: int)
    requires
        0 <= n <= ids.len() == found.len(),
    ensures
        0 <= i < n && found[i] != Lookup::Found && (forall|j: int|
            0 <= j < i ==> #[trigger] found[j] == Lookup::Found) ==> first_unadmitted(ids, found, n)
            == Some((ids[i], found[i])),
        (forall|j: int| 0 <= j < n ==> #[trigger] found[j] == Lookup::Found) ==> first_unadmitted(
            ids,
            found,
            n,
        ) is None,
    decreases n,
{
    if n > 0 {
        the_first_unknown_user_is_named(ids, found, n - 1, i);
    }
}

/// The first target of an overlay that is refused gives the reason; none is given where
/// all are accepted.
pub proof fn the_first_refused_target_gives_the_reason(
    label: Seq<char>,
    overlay: OverlayModel,
    facts: Seq<TargetFacts>,
    n: int,
    i: int,
)
    requires
        0 <= n <= overlay.len(),
    ensures
        0 <= i < n && target_refusal(label, overlay[i].0, overlay[i].1, facts[i]) is Some && (forall|
            j: int,
        |
            0 <= j < i ==> target_refusal(label, (#[trigger] overlay[j]).0, overlay[j].1, facts[j]) is None)
            ==> overlay_refusal(label, overlay, facts, n) == target_refusal(
            label,
            overlay[i].0,
            overlay[i].1,
            facts[i],
        ),
        (forall|j: int|
            0 <= j < n ==> target_refusal(label, (#[trigger] overlay[j]).0, overlay[j].1, facts[j]) is None)
            ==> overlay_refusal(label, overlay, facts, n) is None,
    decreases n,
{
    if n > 0 {
        the_first_refused_target_gives_the_reason(label, overlay, facts, n - 1, i);
        assert(overlay[n - 1] == overlay[n - 1]);
    }
}

/// Experiments are listed by state, those running where nothing is asked; an id is a positive
/// number, and a page is what was asked for within its bounds.
pub proof fn questions_are_read(s: Seq<char>, n: i64, p: RunPage, limit: Option<Seq<char>>, offset: Option<Seq<char>>)
    ensures
        status_filter_of(None) == Some(ExperimentStatusFilter::Active),
        trimmed(s) == "active"@ ==> status_filter_of(Some(s)) == Some(ExperimentStatusFilter::Active),
        trimmed(s) == "closed"@ ==> status_filter_of(Some(s)) == Some(ExperimentStatusFilter::Closed),
        trimmed(s) == "all"@ ==> status_filter_of(Some(s)) == Some(ExperimentStatusFilter::All),
        positive_id(s) == Some(n) <==> i64_of_text(s) == Some(n) && n > 0,
        RunPage::parsed(limit, offset) == Ok::<RunPage, Seq<char>>(p) ==> 1 <= p.limit <= 1000 && 0
            <= p.offset,
        RunPage::parsed(None, None) == Ok::<RunPage, Seq<char>>(RunPage { limit: 200, offset: 0 }),
        limit == Some(s) && offset is None && trimmed(s).len() > 0 && i64_of_text(trimmed(s)) == Some(n) && 1
            <= n <= 1000 ==> RunPage::parsed(limit, offset) == Ok::<RunPage, Seq<char>>(
            RunPage { limit: n, offset: 0 },
        ),
        offset == Some(s) && limit is None && trimmed(s).len() > 0 && i64_of_text(trimmed(s)) == Some(n) && 0
            <= n ==> RunPage::parsed(limit, offset) == Ok::<RunPage, Seq<char>>(
            RunPage { limit: 200, offset: n },
        ),
        status_text(ExperimentStatus::Active) == "active"@,
        status_text(ExperimentStatus::Closed) == "closed"@,
{
    reveal_strlit("");
    reveal_strlit("active");
    reveal_strlit("closed");
    reveal_strlit("all");
    assert(""@.len() == 0);
    assert("active"@.len() == 6 && "active"@[0] == 'a');
    assert("closed"@.len() == 6 && "closed"@[0] == 'c');
    assert("all"@.len() == 3);
}

/// What is recorded of an experiment is all of it, member by member.
pub proof fn experiments_are_recorded(e: Experiment, t: VariantTarget, i: int)
    ensures
        audit_object(e).at("id"@) == JsonModel::Int(e.id as int),
        audit_object(e).at("name"@) == JsonModel::Str(e.name@),
        audit_object(e).at("variants"@) == JsonModel::Obj(variant_entries(e.variants@)),
        audit_object(e).at("status"@) == JsonModel::Str(status_text(e.status)),
        audit_object(e).at("feed_learning"@) == JsonModel::Bool(e.feed_learning),
        audit_object(e).at("created_at"@) == JsonModel::Str(e.created_at@),
        audit_object(e).at("closed_at"@) == match e.closed_at {
            Some(t) => JsonModel::Str(t@),
            None => JsonModel::Null,
        },
        audit_object(e).at("retain_content"@) == JsonModel::Bool(e.retain_content),
        e.expires_at == 0 ==> audit_object(e).at("expires_at"@) == JsonModel::Str("never"@),
        e.expires_at != 0 ==> audit_object(e).at("expires_at"@) == JsonModel::Int(e.expires_at as int),
        e.content_retention_days == 0 ==> audit_object(e).at("content_retention_days"@) == JsonModel::Str(
            "never"@,
        ),
        e.content_retention_days != 0 ==> audit_object(e).at("content_retention_days"@) == JsonModel::Int(
            e.content_retention_days as int,
        ),
        0 <= i < e.allowed_user_ids@.len() ==> audit_object(e).at("allowed_user_ids"@).item(i)
            == JsonModel::Int(e.allowed_user_ids@[i] as int),
        target_object(t).at("target"@) == JsonModel::Str(t.target@),
        target_object(t).at("provider"@) == JsonModel::Str(t.provider@),
        target_object(t).at("model"@) == JsonModel::Str(t.model@),
{
    broadcast use {
        crate::ordered::entries_are_found,
        crate::ordered::nothing_is_found_in_nothing,
    };

    reveal_strlit("id");
    reveal_strlit("name");
    reveal_strlit("variants");
    reveal_strlit("status");
    reveal_strlit("feed_learning");
    reveal_strlit("created_at");
    reveal_strlit("closed_at");
    reveal_strlit("retain_content");
    reveal_strlit("expires_at");
    reveal_strlit("content_retention_days");
    reveal_strlit("allowed_user_ids");
    reveal_strlit("target");
    reveal_strlit("provider");
    reveal_strlit("model");
    assert("id"@.len() == 2);
    assert("name"@.len() == 4);
    assert("variants"@.len() == 8 && "variants"@[0] == 'v');
    assert("status"@.len() == 6 && "status"@[0] == 's');
    assert("feed_learning"@.len() == 13);
    assert("created_at"@.len() == 10 && "created_at"@[0] == 'c');
    assert("closed_at"@.len() == 9);
    assert("retain_content"@.len() == 14);
    assert("expires_at"@.len() == 10 && "expires_at"@[0] == 'e');
    assert("content_retention_days"@.len() == 22);
    assert("allowed_user_ids"@.len() == 16);
    assert("target"@.len() == 6 && "target"@[0] == 't');
    assert("provider"@.len() == 8 && "provider"@[0] == 'p');
    assert("model"@.len() == 5);
}

/// A recorded variant stands under its label, and each of its targets under the model that
/// it stands for.
pub proof fn variants_are_recorded_by_label(
    variants: Seq<(String, PinnedOverlay)>,
    overlay: Seq<(String, VariantTarget)>,
    i: int,
)
    ensures
        0 <= i < variants.len() && (forall|j: int|
            i < j < variants.len() ==> (#[trigger] variants[j]).0@ != variants[i].0@) ==> lookup(
            variant_entries(variants),
            variants[i].0@,
        ) == Some(JsonModel::Obj(overlay_entries(variants[i].1@))),
        0 <= i < overlay.len() && (forall|j: int|
            i < j < overlay.len() ==> (#[trigger] overlay[j]).0@ != overlay[i].0@) ==> lookup(
            overlay_entries(overlay),
            overlay[i].0@,
        ) == Some(target_object(overlay[i].1)),
    decreases variants.len() + overlay.len(),
{
    broadcast use {
        crate::ordered::entries_are_found,
        crate::ordered::nothing_is_found_in_nothing,
    };

    if variants.len() > 0 {
        let front = variants.drop_last();
        variants_are_recorded_by_label(front, Seq::empty(), i);
        assert(forall|j: int| 0 <= j < front.len() ==> #[trigger] front[j] == variants[j]);
        assert(variants[variants.len() - 1] == variants.last());
    }
    if overlay.len() > 0 {
        let front = overlay.drop_last();
        variants_are_recorded_by_label(Seq::empty(), front, i);
        assert(forall|j: int| 0 <= j < front.len() ==> #[trigger] front[j] == overlay[j]);
        assert(overlay[overlay.len() - 1] == overlay.last());
    }
}

/// An experiment to be created is shown part by part.
pub proof fn created_experiments_show_their_parts(p: ParsedCreate)
    ensures
        p@.name == p.name@,
        p@.variants == variant_models(p.variants@),
        p@.allowed_user_ids == p.allowed_user_ids@,
        p@.feed_learning == p.feed_learning,
        p@.expires_at == p.expires_at,
        p@.retain_content == p.retain_content,
        p@.content_retention_days == p.content_retention_days,
{
}

/// An experiment is refused where a member that it needs is missing, where its name is blank,
/// where it has too few or too many variants, where it does not end in the future, and where
/// its content would be kept too long.
pub proof fn experiments_are_refused_for_a_reason(body: JsonModel, now: Moment, t: Moment, s: Seq<char>)
    requires
        body is Obj,
    ensures
        body.at("name"@) is Null ==> parsed_create(body, now) == Err::<CreateModel, Seq<char>>(
            "name"@ + " is required"@,
        ),
        body.at("name"@) == JsonModel::Str(s) && (trimmed(s).len() == 0 || trimmed(s).len() > 128)
            ==> parsed_create(body, now) is Err,
        body.at("variants"@) is Null ==> parsed_create(body, now) is Err,
        body.at("variants"@) matches JsonModel::Obj(v) ==> (v.len() < 2 || v.len() > 16 ==> parsed_create(
            body,
            now,
        ) is Err),
        body.at("expires_at"@) is Null ==> parsed_create(body, now) is Err,
        body.at("expires_at"@) == JsonModel::Str(s) && rfc3339_moment(s) == Some(t) && !t.later_than(now)
            ==> parsed_create(body, now) is Err,
        body.at("content_retention_days"@) matches JsonModel::Int(n) ==> (n < 0 || n > 3650
            ==> parsed_create(body, now) is Err),
        body.at("retain_content"@) is Null ==> parsed_create(body, now) is Err,
        body.at("retain_content"@) == JsonModel::Bool(true) && body.at("expires_at"@) == JsonModel::Int(0)
            ==> parsed_create(body, now) is Err,
        no_experiment(t.secs) == "no experiment with id "@ + int_text(t.secs as int),
        already_closed(t.secs) == "experiment "@ + int_text(t.secs as int) + " is already closed"@,
        entry_prefix(s, s) == "variants: variant '"@ + s + "' key '"@ + s,
{
}

/// A label holds letters, digits, underscores, dots and hyphens, from one to sixty-four of
/// them.
pub proof fn labels_are_short_and_plain(s: Seq<char>, i: int)
    ensures
        valid_label(s) ==> 1 <= s.len() <= 64,
        valid_label(s) && 0 <= i < s.len() ==> ascii_alphanumeric(s[i]) || s[i] == '_' || s[i] == '.' || s[i]
            == '-',
        1 <= s.len() <= 64 && (forall|j: int| 0 <= j < s.len() ==> ascii_alphanumeric(#[trigger] s[j]))
            ==> valid_label(s),
{
}

/// A pinned overlay keeps the models and targets of the one that was stated, in their order,
/// each with the provider and model that its target was resolved to.
pub proof fn pins_follow_the_resolution(pinned: Seq<(String, VariantTarget)>, overlay: OverlayModel, facts: Seq<TargetFacts>, j: int)
    requires
        pinned_as(pinned, overlay, facts),
        0 <= j < overlay.len(),
    ensures
        pinned.len() == overlay.len(),
        pinned[j].0@ == overlay[j].0,
        pinned[j].1.target@ == overlay[j].1,
        pinned[j].1.provider@ == facts[j].resolution.provider@,
        pinned[j].1.model@ == facts[j].resolution.model@,
{
    assert(pinned[j].0@ == overlay[j].0);
}

/// What is recorded of a closing is the state and when it was closed.
pub proof fn closings_are_recorded(e: Experiment)
    ensures
        exists|o: JsonModel|
            closing_json(e) == #[trigger] text_of_json(o) && o.at("status"@) == JsonModel::Str(
                status_text(e.status),
            ) && o.at("closed_at"@) == text_or_null(opt_text(e.closed_at)),
{
    broadcast use {
        crate::ordered::entries_are_found,
        crate::ordered::nothing_is_found_in_nothing,
    };

    reveal_strlit("status");
    reveal_strlit("closed_at");
    assert("status"@.len() == 6);
    assert("closed_at"@.len() == 9);
    let o = with_entry(Seq::empty(), "status"@, JsonModel::Str(status_text(e.status)));
    let o = JsonModel::Obj(with_entry(o, "closed_at"@, text_or_null(opt_text(e.closed_at))));
    assert(closing_json(e) == text_of_json(o));
}

} // verus!
