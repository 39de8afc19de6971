//! Speech and transcriptions.

use crate::api::attribution::{extracted, filled, no_attribution, Attribution, AttributionModel};
use crate::api::error::{ApiError, BindError};
use crate::api::routes::gate::{is_invalid, is_provider_error};
use crate::api::routes::proxy::{
    endpoint, endpoint_url, fails_as, plain_call, ProxyAction, ProxyFlow, ProxyPhase,
};
use crate::api::routes::usage::{Call, Payer};
use crate::json::{Json, JsonModel};
use crate::records::{Usd, User};
use crate::text::{as_count, byte_count, byte_len, opt_text, to_count};
use axum::http::{HeaderMap, HeaderValue};
use vstd::prelude::*;

verus! {

/// The model of a speech request that names none.
pub const SPEECH_MODEL: &'static str = "tts-1";

/// The model of every transcription.
pub const TRANSCRIPTION_MODEL: &'static str = "whisper-1";

pub const OPENAI_BASE: &'static str = "https://api.openai.com";

/// What a transcription costs: 0.006 dollars, as the bits of a double.
pub const TRANSCRIPTION_COST_BITS: u64 = 0x3f789374bc6a7efa;

/// The text of a member, or else a default.
pub open spec fn text_or(body: JsonModel, key: Seq<char>, default: Seq<char>) -> Seq<char> {
    match body.at(key).text() {
        Some(t) => t,
        None => default,
    }
}

pub fn member_text(body: &Json, key: &str, default: &str) -> (r: String)
    ensures
        r@ == text_or(body.model(), key@, default@),
{
    if let Some(v) = body.get(key) {
        if let Some(t) = v.as_str() {
            return t.to_owned();
        }
    }
    default.to_owned()
}

/// What a request says of its attribution, or nothing where that is not valid:
/// these endpoints do not refuse a request over its attribution.
pub open spec fn lenient(
    extracted: Result<AttributionModel, Seq<char>>,
) -> AttributionModel {
    match extracted {
        Ok(a) => a,
        Err(_) => no_attribution(),
    }
}

pub fn lenient_attribution(body: &Json, headers: &HeaderMap<HeaderValue>) -> (r: Attribution)
    requires
        body.wf(),
    ensures
        r@ == lenient(extracted(body.model(), *headers)),
{
    match Attribution::extract(body, headers) {
        Ok(a) => a,
        Err(_) => Attribution::default(),
    }
}

/// The attribution of a request without a JSON body.
pub fn lenient_header_attribution(headers: &HeaderMap<HeaderValue>) -> (r: Attribution)
    ensures
        r@ == lenient(filled(no_attribution(), *headers)),
{
    match Attribution::from_headers(headers) {
        Ok(a) => a,
        Err(_) => Attribution::default(),
    }
}

// ---------------------------------------------------------------------------
// Speech
// ---------------------------------------------------------------------------

/// Begins a speech request.
pub fn begin_speech(refusal: Option<BindError>, body: &Json, default_provider: &str) -> (r: (
    ProxyFlow,
    ProxyAction,
))
    ensures
        r.0.wf(),
        r.0.model@ == text_or(body.model(), "model"@, SPEECH_MODEL@),
        r.0.provider@ == default_provider@,
        match refusal {
            Some(err) => r.0.phase == ProxyPhase::Ended && (fails_as(r.1) matches Some(e)
                && is_invalid(e, err.0@)),
            None => r.0.phase == ProxyPhase::Policy && (
            r.1 matches ProxyAction::CheckPolicy { model } && model@ == text_or(
                body.model(),
                "model"@,
                SPEECH_MODEL@,
            )),
        },
{
    ProxyFlow::begin(
        refusal,
        member_text(body, "model", SPEECH_MODEL),
        default_provider.to_owned(),
    )
}

pub fn speech_url(api_base: &Option<String>) -> (r: String)
    ensures
        r@ == endpoint(opt_text(*api_base), OPENAI_BASE@, "/v1/audio/speech"@),
{
    endpoint_url(api_base, OPENAI_BASE, "/v1/audio/speech")
}

/// How much speech is charged for: the bytes of the input, none where it is not
/// text.
pub open spec fn speech_units(body: JsonModel) -> i64 {
    match body.at("input"@).text() {
        Some(s) => as_count(byte_count(s)),
        None => 0,
    }
}

pub fn count_speech_units(body: &Json) -> (r: i64)
    ensures
        r == speech_units(body.model()),
{
    if let Some(v) = body.get("input") {
        if let Some(s) = v.as_str() {
            return to_count(byte_len(s));
        }
    }
    0
}

/// The media type of an answer.
pub fn speech_content_type(stated: Option<String>) -> (r: String)
    ensures
        r@ == match stated {
            Some(t) => t@,
            None => "audio/mpeg"@,
        },
{
    match stated {
        Some(t) => t,
        None => "audio/mpeg".to_owned(),
    }
}

/// An answer whose body could not be read.
pub fn unread_response(message: &str) -> (r: ApiError)
    ensures
        is_provider_error(r, "failed to read response: "@ + message@),
{
    ApiError::ProviderError("failed to read response: ".to_owned().concat(message))
}

/// Whether `c` charges a request of this kind: the flow's model and provider,
/// `units`, and the payer that user and attribution make.
pub open spec fn charges(
    c: Call,
    user: User,
    attribution: Attribution,
    flow: ProxyFlow,
    units: i64,
    cost_usd: Usd,
) -> bool {
    &&& c.payer.pays_for(user, attribution)
    &&& c.request_model@ == flow.model@
    &&& c.model@ == flow.model@
    &&& c.provider@ == flow.provider@
    &&& c.messages@ == "[]"@
    &&& c.response is None
    &&& c.finish_reason is None
    &&& c.prompt_tokens == units
    &&& c.completion_tokens == 0
    &&& c.cache_read_tokens == 0
    &&& c.cache_write_tokens == 0
    &&& !c.tokens_estimated
    &&& c.cost_usd == cost_usd
    &&& c.latency_ms is None
    &&& c.ttft_ms is None
    &&& c.attempts is None
}

/// The call that a request of this kind is charged as.
pub fn unit_call(
    user: &User,
    attribution: &Attribution,
    flow: &ProxyFlow,
    units: i64,
    cost_usd: Usd,
) -> (r: Call)
    ensures
        charges(r, *user, *attribution, *flow, units, cost_usd),
{
    plain_call(
        Payer::new(user, attribution),
        flow.model.clone(),
        flow.provider.clone(),
        flow.model.clone(),
        units,
        0,
        cost_usd,
        None,
    )
}

/// The call that speech is charged as.
pub fn speech_call(
    user: &User,
    attribution: &Attribution,
    flow: &ProxyFlow,
    body: &Json,
    cost_usd: Usd,
) -> (r: Call)
    ensures
        charges(r, *user, *attribution, *flow, speech_units(body.model()), cost_usd),
{
    unit_call(user, attribution, flow, count_speech_units(body), cost_usd)
}

// ---------------------------------------------------------------------------
// Transcriptions
// ---------------------------------------------------------------------------

/// Begins a transcription.
pub fn begin_transcription(refusal: Option<BindError>, default_provider: &str) -> (r: (
    ProxyFlow,
    ProxyAction,
))
    ensures
        r.0.wf(),
        r.0.model@ == TRANSCRIPTION_MODEL@,
        r.0.provider@ == default_provider@,
        match refusal {
            Some(err) => r.0.phase == ProxyPhase::Ended && (fails_as(r.1) matches Some(e)
                && is_invalid(e, err.0@)),
            None => r.0.phase == ProxyPhase::Policy && (
            r.1 matches ProxyAction::CheckPolicy { model } && model@ == TRANSCRIPTION_MODEL@),
        },
{
    ProxyFlow::begin(refusal, TRANSCRIPTION_MODEL.to_owned(), default_provider.to_owned())
}

pub fn transcription_url(api_base: &Option<String>) -> (r: String)
    ensures
        r@ == endpoint(opt_text(*api_base), OPENAI_BASE@, "/v1/audio/transcriptions"@),
{
    endpoint_url(api_base, OPENAI_BASE, "/v1/audio/transcriptions")
}

/// The part of a form as it arrived. A part without a name is the file.
#[derive(Debug, PartialEq, Eq)]
pub struct FormPart {
    pub name: String,
    pub file_name: Option<String>,
    pub content_type: Option<String>,
    pub bytes: Vec<u8>,
}

/// Takes one part of the form over.
pub fn form_part(
    name: Option<String>,
    file_name: Option<String>,
    content_type: Option<String>,
    bytes: Result<Vec<u8>, String>,
) -> (r: Result<FormPart, ApiError>)
    ensures
        match bytes {
            Err(_) => r matches Err(e) && is_invalid(e, "read error"@),
            Ok(b) => {
                &&& r matches Ok(part)
                &&& part.name@ == match name {
                    Some(n) => n@,
                    None => "file"@,
                }
                &&& part.file_name == file_name
                &&& part.content_type == content_type
                &&& part.bytes == b
            },
        },
{
    match bytes {
        Err(_) => Err(ApiError::InvalidRequest("read error".to_owned())),
        Ok(b) => Ok(
            FormPart {
                name: match name {
                    Some(n) => n,
                    None => "file".to_owned(),
                },
                file_name,
                content_type,
                bytes: b,
            },
        ),
    }
}

/// A form that could not be taken apart.
pub fn invalid_form() -> (r: ApiError)
    ensures
        is_invalid(r, "invalid multipart"@),
{
    ApiError::InvalidRequest("invalid multipart".to_owned())
}

/// An answer that is not JSON.
pub fn unparsed_response(message: &str) -> (r: ApiError)
    ensures
        is_provider_error(r, "failed to parse response: "@ + message@),
{
    ApiError::ProviderError("failed to parse response: ".to_owned().concat(message))
}

/// The call that a transcription is charged as: one unit at a flat price.
pub fn transcription_call(user: &User, attribution: &Attribution, flow: &ProxyFlow) -> (r: Call)
    ensures
        charges(r, *user, *attribution, *flow, 1, (Usd { bits: TRANSCRIPTION_COST_BITS })),
{
    unit_call(user, attribution, flow, 1, Usd { bits: TRANSCRIPTION_COST_BITS })
}

/// Speech is charged by the bytes of its input, nothing where there is none; and a member that
/// is no text gives way to the default.
pub proof fn speech_is_charged_by_its_input(body: JsonModel, key: Seq<char>, default: Seq<char>, t: Seq<char>)
    ensures
        body.at("input"@) == JsonModel::Str(t) && byte_count(t) <= i64::MAX ==> speech_units(body)
            == byte_count(t),
        !(body.at("input"@) is Str) ==> speech_units(body) == 0,
        body.at(key) == JsonModel::Str(t) ==> text_or(body, key, default) == t,
        !(body.at(key) is Str) ==> text_or(body, key, default) == default,
{
}

/// What a call to an endpoint that counts units is charged with: the units as tokens that
/// went in, none that came out, and the cost, for the model and the provider of the request.
pub proof fn units_are_charged_to_the_caller(
    c: Call,
    user: User,
    attribution: Attribution,
    flow: ProxyFlow,
    units: i64,
    cost_usd: Usd,
)
    requires
        charges(c, user, attribution, flow, units, cost_usd),
    ensures
        c.payer.user_id == user.id && c.payer.api_key_id == user.api_key_id,
        c.request_model@ == flow.model@ && c.model@ == flow.model@ && c.provider@ == flow.provider@,
        c.prompt_tokens == units && c.completion_tokens == 0,
        c.cache_read_tokens == 0 && c.cache_write_tokens == 0 && !c.tokens_estimated,
        c.cost_usd == cost_usd,
        c.response is None && c.finish_reason is None,
{
}

/// Where attribution is not in order the request goes on without it.
pub proof fn attribution_is_optional_here(a: AttributionModel, e: Seq<char>)
    ensures
        lenient(Ok(a)) == a,
        lenient(Err(e)).correlation_id is None && lenient(Err(e)).project is None && lenient(
            Err(e),
        ).tags.len() == 0,
{
}

} // verus!
