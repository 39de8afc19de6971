//! A caller reports how a run turned out.
//!
//! One outcome per user and correlation id; a later report replaces it. It is
//! stamped with the experiment and variant of the run's earliest stamped row.

use crate::api::attribution::{
    checked_correlation_id, validate_correlation_id_field, MAX_CORRELATION_LEN,
};
use crate::api::error::ApiError;
use crate::api::routes::gate::is_invalid;
use crate::json::{Json, JsonModel};
use crate::text::{nat_text, opt_text, same, u64_text};
use vstd::prelude::*;

verus! {

/// Upper bound on a note, in characters.
pub const MAX_NOTE_LEN: usize = 1024;

/// What a run may turn out as. Anything else could not be counted, and a
/// misspelling would silently form a class of its own.
pub open spec fn is_outcome(s: Seq<char>) -> bool {
    s == "success"@ || s == "failure"@
}

/// A report that was read.
#[derive(Debug, PartialEq, Eq)]
pub struct Feedback {
    pub correlation_id: String,
    pub outcome: String,
    /// The bits of a double between 0 and 1.
    pub score: Option<u64>,
    pub rating: Option<i64>,
    pub note: Option<String>,
}

pub struct FeedbackModel {
    pub correlation_id: Seq<char>,
    pub outcome: Seq<char>,
    pub score: Option<u64>,
    pub rating: Option<i64>,
    pub note: Option<Seq<char>>,
}

impl View for Feedback {
    type V = FeedbackModel;

    open spec fn view(&self) -> FeedbackModel {
        FeedbackModel {
            correlation_id: self.correlation_id@,
            outcome: self.outcome@,
            score: self.score,
            rating: self.rating,
            note: opt_text(self.note),
        }
    }
}

/// The bits of one, as a double.
pub const ONE_BITS: u64 = 0x3ff0000000000000;

/// The bits of zero with a minus sign, as a double.
pub const MINUS_ZERO_BITS: u64 = 0x8000000000000000;

/// Whether the bits are those of a double from 0 to 1. Among doubles that are not
/// negative, larger bits mean a larger number.
pub open spec fn unit_interval_bits(bits: u64) -> bool {
    bits <= ONE_BITS || bits == MINUS_ZERO_BITS
}

/// The score that a value states: a number from 0 to 1, as the bits of a double.
pub open spec fn score_of(v: JsonModel) -> Option<u64> {
    match v {
        JsonModel::Int(n) => if n == 0 {
            Some(0)
        } else if n == 1 {
            Some(ONE_BITS)
        } else {
            None
        },
        JsonModel::Float(bits) => if unit_interval_bits(bits) {
            Some(bits)
        } else {
            None
        },
        _ => None,
    }
}

/// An optional member: absent or null, read, or at fault.
pub open spec fn optional<T>(
    v: Option<JsonModel>,
    read: spec_fn(JsonModel) -> Option<T>,
    fault: Seq<char>,
) -> Result<Option<T>, Seq<char>> {
    match v {
        None => Ok(None),
        Some(JsonModel::Null) => Ok(None),
        Some(x) => match read(x) {
            Some(t) => Ok(Some(t)),
            None => Err(fault),
        },
    }
}

pub open spec fn stated_id(body: JsonModel) -> Result<Seq<char>, Seq<char>> {
    match body.field("correlation_id"@) {
        None => Err("correlation_id is required"@),
        Some(JsonModel::Null) => Err("correlation_id is required"@),
        Some(JsonModel::Str(s)) => checked_correlation_id("correlation_id"@, s),
        Some(_) => Err("correlation_id must be a string"@),
    }
}

pub open spec fn stated_outcome(body: JsonModel) -> Result<Seq<char>, Seq<char>> {
    match body.field("outcome"@) {
        None => Err("outcome is required"@),
        Some(JsonModel::Null) => Err("outcome is required"@),
        Some(v) => match v.text() {
            Some(s) => if is_outcome(s) {
                Ok(s)
            } else {
                Err("outcome must be one of: success, failure"@)
            },
            None => Err("outcome must be one of: success, failure"@),
        },
    }
}

pub open spec fn stated_score(body: JsonModel) -> Result<Option<u64>, Seq<char>> {
    optional(
        body.field("score"@),
        |v: JsonModel| score_of(v),
        "score must be a number between 0 and 1"@,
    )
}

pub open spec fn rating_of(v: JsonModel) -> Option<i64> {
    match v.signed() {
        Some(n) => if 1 <= n <= 5 {
            Some(n)
        } else {
            None
        },
        None => None,
    }
}

pub open spec fn stated_rating(body: JsonModel) -> Result<Option<i64>, Seq<char>> {
    optional(
        body.field("rating"@),
        |v: JsonModel| rating_of(v),
        "rating must be an integer between 1 and 5"@,
    )
}

pub open spec fn stated_note(body: JsonModel) -> Result<Option<Seq<char>>, Seq<char>> {
    match body.field("note"@) {
        None => Ok(None),
        Some(JsonModel::Null) => Ok(None),
        Some(JsonModel::Str(s)) => if s.len() <= MAX_NOTE_LEN {
            Ok(Some(s))
        } else {
            Err("note must be at most "@ + nat_text(MAX_NOTE_LEN as nat) + " characters"@)
        },
        Some(_) => Err("note must be a string"@),
    }
}

/// What a report says: the first field at fault is the one that is named.
pub open spec fn parsed_feedback(body: JsonModel) -> Result<FeedbackModel, Seq<char>> {
    if !(body is Obj) {
        Err("body must be a JSON object"@)
    } else if stated_id(body) is Err {
        Err(stated_id(body)->Err_0)
    } else if stated_outcome(body) is Err {
        Err(stated_outcome(body)->Err_0)
    } else if stated_score(body) is Err {
        Err(stated_score(body)->Err_0)
    } else if stated_rating(body) is Err {
        Err(stated_rating(body)->Err_0)
    } else if stated_note(body) is Err {
        Err(stated_note(body)->Err_0)
    } else {
        Ok(
            FeedbackModel {
                correlation_id: stated_id(body)->Ok_0,
                outcome: stated_outcome(body)->Ok_0,
                score: stated_score(body)->Ok_0,
                rating: stated_rating(body)->Ok_0,
                note: stated_note(body)->Ok_0,
            },
        )
    }
}

/// Validates a correlation id by the rules for the ids on requests.
pub fn validate_correlation_id(raw: &str) -> (r: Result<String, ApiError>)
    ensures
        match checked_correlation_id("correlation_id"@, raw@) {
            Ok(id) => r matches Ok(s) && s@ == id,
            Err(msg) => r matches Err(e) && is_invalid(e, msg),
        },
{
    match validate_correlation_id_field("correlation_id", raw) {
        Ok(id) => Ok(id),
        Err(e) => Err(ApiError::InvalidRequest(e.0)),
    }
}

fn parse_correlation_id(body: &Json) -> (r: Result<String, ApiError>)
    ensures
        match stated_id(body.model()) {
            Ok(id) => r matches Ok(s) && s@ == id,
            Err(msg) => r matches Err(e) && is_invalid(e, msg),
        },
{
    match body.get("correlation_id") {
        None => Err(ApiError::InvalidRequest("correlation_id is required".to_owned())),
        Some(Json::Null) => Err(ApiError::InvalidRequest("correlation_id is required".to_owned())),
        Some(Json::Str(s)) => validate_correlation_id(s.as_str()),
        Some(_) => Err(ApiError::InvalidRequest("correlation_id must be a string".to_owned())),
    }
}

fn parse_outcome(body: &Json) -> (r: Result<String, ApiError>)
    ensures
        match stated_outcome(body.model()) {
            Ok(o) => r matches Ok(s) && s@ == o,
            Err(msg) => r matches Err(e) && is_invalid(e, msg),
        },
{
    match body.get("outcome") {
        None => Err(ApiError::InvalidRequest("outcome is required".to_owned())),
        Some(Json::Null) => Err(ApiError::InvalidRequest("outcome is required".to_owned())),
        Some(v) => {
            if let Some(s) = v.as_str() {
                if same(s, "success") || same(s, "failure") {
                    return Ok(s.to_owned());
                }
            }
            Err(ApiError::InvalidRequest("outcome must be one of: success, failure".to_owned()))
        },
    }
}

fn parse_score(body: &Json) -> (r: Result<Option<u64>, ApiError>)
    ensures
        match stated_score(body.model()) {
            Ok(s) => r == Ok::<Option<u64>, ApiError>(s),
            Err(msg) => r matches Err(e) && is_invalid(e, msg),
        },
{
    match body.get("score") {
        None => Ok(None),
        Some(Json::Null) => Ok(None),
        Some(Json::PosInt(0)) => Ok(Some(0)),
        Some(Json::PosInt(1)) => Ok(Some(ONE_BITS)),
        Some(Json::NegInt(0)) => Ok(Some(0)),
        Some(Json::NegInt(1)) => Ok(Some(ONE_BITS)),
        Some(Json::Float(bits)) => if *bits <= ONE_BITS || *bits == MINUS_ZERO_BITS {
            Ok(Some(*bits))
        } else {
            Err(ApiError::InvalidRequest("score must be a number between 0 and 1".to_owned()))
        },
        Some(_) => Err(
            ApiError::InvalidRequest("score must be a number between 0 and 1".to_owned()),
        ),
    }
}

fn parse_rating(body: &Json) -> (r: Result<Option<i64>, ApiError>)
    ensures
        match stated_rating(body.model()) {
            Ok(s) => r == Ok::<Option<i64>, ApiError>(s),
            Err(msg) => r matches Err(e) && is_invalid(e, msg),
        },
{
    match body.get("rating") {
        None => Ok(None),
        Some(Json::Null) => Ok(None),
        Some(v) => {
            if let Some(n) = v.as_i64() {
                if 1 <= n && n <= 5 {
                    return Ok(Some(n));
                }
            }
            Err(ApiError::InvalidRequest("rating must be an integer between 1 and 5".to_owned()))
        },
    }
}

fn parse_note(body: &Json) -> (r: Result<Option<String>, ApiError>)
    ensures
        match stated_note(body.model()) {
            Ok(s) => r matches Ok(n) && opt_text(n) == s,
            Err(msg) => r matches Err(e) && is_invalid(e, msg),
        },
{
    match body.get("note") {
        None => Ok(None),
        Some(Json::Null) => Ok(None),
        Some(Json::Str(s)) => {
            if s.as_str().unicode_len() <= MAX_NOTE_LEN {
                return Ok(Some(s.clone()));
            }
            let mut msg = "note must be at most ".to_owned();
            msg.append(u64_text(MAX_NOTE_LEN as u64).as_str());
            msg.append(" characters");
            Err(ApiError::InvalidRequest(msg))
        },
        Some(_) => Err(ApiError::InvalidRequest("note must be a string".to_owned())),
    }
}

/// Reads a report.
pub fn parse_feedback(body: &Json) -> (r: Result<Feedback, ApiError>)
    ensures
        match parsed_feedback(body.model()) {
            Ok(f) => r matches Ok(v) && v@ == f,
            Err(msg) => r matches Err(e) && is_invalid(e, msg),
        },
{
    if !body.is_object() {
        return Err(ApiError::InvalidRequest("body must be a JSON object".to_owned()));
    }
    let correlation_id = match parse_correlation_id(body) {
        Ok(v) => v,
        Err(e) => {
            return Err(e);
        },
    };
    let outcome = match parse_outcome(body) {
        Ok(v) => v,
        Err(e) => {
            return Err(e);
        },
    };
    let score = match parse_score(body) {
        Ok(v) => v,
        Err(e) => {
            return Err(e);
        },
    };
    let rating = match parse_rating(body) {
        Ok(v) => v,
        Err(e) => {
            return Err(e);
        },
    };
    let note = match parse_note(body) {
        Ok(v) => v,
        Err(e) => {
            return Err(e);
        },
    };
    Ok(Feedback { correlation_id, outcome, score, rating, note })
}

/// The experiment and variant of a run's earliest stamped row.
#[derive(Debug, Clone, PartialEq, Eq)]
pub struct RunStamp {
    pub experiment_id: Option<i64>,
    pub experiment_variant: Option<String>,
}

pub open spec fn unknown_run(id: Seq<char>) -> Seq<char> {
    "correlation_id '"@ + id
        + "' has no recorded requests under this API key yet; requests are logged asynchronously, so retry shortly if the run just finished"@
}

/// The stamp of the run that is reported on. The run must be the caller's: the
/// same id under another key is another run. A run whose every request failed
/// has no ledger row but has happened.
pub fn stamp_of_run(
    correlation_id: &str,
    ledger: Result<Option<RunStamp>, String>,
    failed: Result<bool, String>,
) -> (r: Result<RunStamp, ApiError>)
    ensures
        match ledger {
            Err(_) => r == Err::<RunStamp, ApiError>(ApiError::Internal),
            Ok(Some(stamp)) => r == Ok::<RunStamp, ApiError>(stamp),
            Ok(None) => match failed {
                Err(_) => r == Err::<RunStamp, ApiError>(ApiError::Internal),
                Ok(true) => r matches Ok(s) && s.experiment_id is None && s.experiment_variant is None,
                Ok(false) => r matches Err(e) && is_invalid(e, unknown_run(correlation_id@)),
            },
        },
{
    match ledger {
        Err(_) => Err(ApiError::Internal),
        Ok(Some(stamp)) => Ok(stamp),
        Ok(None) => match failed {
            Err(_) => Err(ApiError::Internal),
            Ok(true) => Ok(RunStamp { experiment_id: None, experiment_variant: None }),
            Ok(false) => {
                let mut msg = "correlation_id '".to_owned();
                msg.append(correlation_id);
                msg.append(
                    "' has no recorded requests under this API key yet; requests are logged asynchronously, so retry shortly if the run just finished",
                );
                Err(ApiError::InvalidRequest(msg))
            },
        },
    }
}

/// An outcome to be stored.
#[derive(Debug, PartialEq, Eq)]
pub struct NewRunOutcome {
    pub user_id: i64,
    pub attribution_correlation_id: String,
    pub outcome: String,
    pub score: Option<u64>,
    pub rating: Option<i64>,
    pub note: Option<String>,
    pub experiment_id: Option<i64>,
    pub experiment_variant: Option<String>,
}

/// The row to be stored for a report.
pub fn outcome_row(user_id: i64, feedback: Feedback, stamp: RunStamp) -> (r: NewRunOutcome)
    ensures
        r.user_id == user_id,
        r.attribution_correlation_id == feedback.correlation_id,
        r.outcome == feedback.outcome,
        r.score == feedback.score,
        r.rating == feedback.rating,
        r.note == feedback.note,
        r.experiment_id == stamp.experiment_id,
        r.experiment_variant == stamp.experiment_variant,
{
    NewRunOutcome {
        user_id,
        attribution_correlation_id: feedback.correlation_id,
        outcome: feedback.outcome,
        score: feedback.score,
        rating: feedback.rating,
        note: feedback.note,
        experiment_id: stamp.experiment_id,
        experiment_variant: stamp.experiment_variant,
    }
}

// ---------------------------------------------------------------------------
// Laws
// ---------------------------------------------------------------------------

/// An id that is accepted on a request is accepted in a report, as the same id,
/// and the other way round.
pub proof fn ids_are_accepted_alike(raw: Seq<char>)
    ensures
        checked_correlation_id("attribution.correlation_id"@, raw) is Ok
            <==> checked_correlation_id("correlation_id"@, raw) is Ok,
        checked_correlation_id("attribution.correlation_id"@, raw) is Ok
            ==> checked_correlation_id("attribution.correlation_id"@, raw)
            == checked_correlation_id("correlation_id"@, raw),
{
}

/// What every accepted report satisfies.
pub proof fn accepted_feedback_is_bounded(body: JsonModel, f: FeedbackModel)
    requires
        parsed_feedback(body) == Ok::<FeedbackModel, Seq<char>>(f),
    ensures
        is_outcome(f.outcome),
        0 < f.correlation_id.len() <= MAX_CORRELATION_LEN,
        f.score matches Some(bits) ==> unit_interval_bits(bits),
        f.rating matches Some(n) ==> 1 <= n <= 5,
        f.note matches Some(s) ==> s.len() <= MAX_NOTE_LEN,
{
}

/// Accepted feedback is what the body states, member by member; a score of 0 or 1 may be
/// written as an integer, and what is left out is left out.
pub proof fn feedback_is_what_was_stated(body: JsonModel, f: FeedbackModel)
    requires
        parsed_feedback(body) == Ok::<FeedbackModel, Seq<char>>(f),
    ensures
        body.at("outcome"@) == JsonModel::Str(f.outcome),
        f.outcome == "success"@ || f.outcome == "failure"@,
        body.at("correlation_id"@) matches JsonModel::Str(s) && checked_correlation_id(
            "correlation_id"@,
            s,
        ) == Ok::<Seq<char>, Seq<char>>(f.correlation_id),
        f.rating matches Some(n) ==> body.at("rating"@).signed() == Some(n) && 1 <= n <= 5,
        f.rating is None <==> body.at("rating"@) is Null,
        f.note matches Some(s) ==> body.at("note"@) == JsonModel::Str(s) && s.len() <= 1024,
        f.note is None <==> body.at("note"@) is Null,
        f.score is None <==> body.at("score"@) is Null,
        f.score matches Some(b) ==> (body.at("score"@) == JsonModel::Float(b) || (body.at("score"@)
            == JsonModel::Int(0) && b == 0) || (body.at("score"@) == JsonModel::Int(1) && b
            == 0x3ff0000000000000)),
{
}

/// Feedback is refused where an outcome is missing or unknown, a score or rating is out of
/// range, or a note is too long; and only then, where the id is in order.
pub proof fn feedback_is_refused_for_a_reason(body: JsonModel)
    requires
        body is Obj,
    ensures
        body.at("outcome"@) is Null ==> parsed_feedback(body) is Err,
        body.at("outcome"@) matches JsonModel::Str(s) ==> (s != "success"@ && s != "failure"@
            ==> parsed_feedback(body) is Err),
        body.at("rating"@) matches JsonModel::Int(n) ==> ((n < 1 || n > 5) ==> parsed_feedback(body) is Err),
        body.at("score"@) matches JsonModel::Int(n) ==> ((n < 0 || n > 1) ==> parsed_feedback(body) is Err),
        body.at("note"@) matches JsonModel::Str(s) ==> (s.len() > 1024 ==> parsed_feedback(body) is Err),
        stated_id(body) is Ok && (body.at("outcome"@) == JsonModel::Str("success"@) || body.at("outcome"@)
            == JsonModel::Str("failure"@)) && body.at("score"@) is Null && body.at("rating"@) is Null
            && body.at("note"@) is Null ==> parsed_feedback(body) is Ok,
{
}

/// Feedback is shown part by part.
pub proof fn feedback_shows_its_parts(f: Feedback)
    ensures
        f@.correlation_id == f.correlation_id@,
        f@.outcome == f.outcome@,
        f@.score == f.score,
        f@.rating == f.rating,
        f@.note == opt_text(f.note),
{
}

} // verus!
