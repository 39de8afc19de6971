//! Embeddings: what a request asks for, the walk along the fallback chain, and
//! the answer in the encoding that was asked for.

use crate::api::attribution::{extracted, Attribution};
use crate::api::admin::experiments::Resolution;
use crate::api::error::{ApiError, BindError, Unavailable};
use crate::api::routes::audio::{member_text, text_or};
use crate::api::routes::gate::{
    guard_model_substitution, is_denial, is_disabled, is_invalid, is_provider_error, pass_policy,
    reject_experiment_header, substitution_refusal, PolicyDecision,
};
use crate::api::routes::proxy::plain_call;
use crate::api::routes::stream_log::{low32, to_low32};
use crate::api::routes::usage::{Call, Payer};
use crate::codec::{base64_standard, base64_text};
use crate::json::{list_models, Json, JsonModel};
use crate::ordered::with_entry;
use crate::records::{Usd, User};
use crate::sums::{lemma_picked_selects, picked, selects, selects_at};
use crate::text::{same, texts};
use axum::http::{HeaderMap, HeaderValue};
use vstd::prelude::*;

verus! {

/// The model of a request that names none.
pub const EMBEDDING_MODEL: &'static str = "text-embedding-3-small";

/// How far the chain is followed: a chain that points back at itself ends in an
/// error instead of a hung request.
pub const MAX_HOPS: usize = 8;

// ---------------------------------------------------------------------------
// The request
// ---------------------------------------------------------------------------

/// The texts among a list of values.
pub open spec fn texts_among(items: Seq<JsonModel>) -> Seq<Seq<char>>
    decreases items.len(),
{
    if items.len() == 0 {
        Seq::empty()
    } else {
        match items.last().text() {
            Some(t) => texts_among(items.drop_last()).push(t),
            None => texts_among(items.drop_last()),
        }
    }
}

/// The texts to be embedded: one, or the texts of a list; there must be some.
pub open spec fn stated_input(body: JsonModel) -> Result<Seq<Seq<char>>, Seq<char>> {
    match body.at("input"@) {
        JsonModel::Str(s) => Ok(seq![s]),
        JsonModel::Arr(items) => if texts_among(items).len() == 0 {
            Err("input must not be empty"@)
        } else {
            Ok(texts_among(items))
        },
        _ => Err("input must be a string or array of strings"@),
    }
}

pub fn parse_input(body: &Json) -> (r: Result<Vec<String>, ApiError>)
    ensures
        match stated_input(body.model()) {
            Ok(t) => r matches Ok(v) && texts(v@) == t,
            Err(msg) => r matches Err(e) && is_invalid(e, msg),
        },
{
    let input = match body.get("input") {
        Some(v) => v,
        None => {
            return Err(
                ApiError::InvalidRequest("input must be a string or array of strings".to_owned()),
            );
        },
    };
    match input {
        Json::Str(s) => {
            let mut out: Vec<String> = Vec::new();
            out.push(s.clone());
            assert(texts(out@) =~= seq![s@]);
            Ok(out)
        },
        Json::Arr(items) => {
            proof {
                Json::lemma_arr(*items);
            }
            let ghost all = list_models(items@);
            let mut out: Vec<String> = Vec::new();
            let mut i: usize = 0;
            assert(texts(out@) =~= Seq::empty());
            while i < items.len()
                invariant
                    i <= items@.len(),
                    all == list_models(items@),
                    texts(out@) == texts_among(all.take(i as int)),
                decreases items@.len() - i,
            {
                assert(all.take(i + 1).drop_last() =~= all.take(i as int));
                assert(all.take(i + 1).last() == items@[i as int].model());
                if let Some(t) = items[i].as_str() {
                    let ghost before = texts(out@);
                    out.push(t.to_owned());
                    assert(texts(out@) =~= before.push(t@));
                }
                i += 1;
            }
            assert(all.take(i as int) =~= all);
            assert(texts(out@).len() == out@.len());
            if out.len() == 0 {
                return Err(ApiError::InvalidRequest("input must not be empty".to_owned()));
            }
            Ok(out)
        },
        _ => Err(
            ApiError::InvalidRequest("input must be a string or array of strings".to_owned()),
        ),
    }
}

/// The width that a request pins, for every provider that may answer.
pub open spec fn stated_dimensions(body: JsonModel) -> Option<u32> {
    match body.at("dimensions"@).unsigned() {
        Some(n) => Some(low32(n)),
        None => None,
    }
}

pub fn parse_dimensions(body: &Json) -> (r: Option<u32>)
    ensures
        r == stated_dimensions(body.model()),
{
    match body.get("dimensions") {
        Some(v) => match v.as_u64() {
            Some(n) => Some(to_low32(n)),
            None => None,
        },
        None => None,
    }
}

/// How vectors are to be written.
#[derive(Debug, Clone, Copy, PartialEq, Eq, Structural)]
pub enum Encoding {
    Numbers,
    Base64,
}

/// The encoding that a request asks for: numbers where it does not say.
pub open spec fn stated_encoding(body: JsonModel) -> Result<Encoding, Seq<char>> {
    let f = text_or(body, "encoding_format"@, "float"@);
    if f == "float"@ {
        Ok(Encoding::Numbers)
    } else if f == "base64"@ {
        Ok(Encoding::Base64)
    } else {
        Err("unsupported encoding_format '"@ + f + "': expected 'float' or 'base64'"@)
    }
}

pub fn parse_encoding(body: &Json) -> (r: Result<Encoding, ApiError>)
    ensures
        match stated_encoding(body.model()) {
            Ok(f) => r == Ok::<Encoding, ApiError>(f),
            Err(msg) => r matches Err(e) && is_invalid(e, msg),
        },
{
    let f = member_text(body, "encoding_format", "float");
    if same(f.as_str(), "float") {
        Ok(Encoding::Numbers)
    } else if same(f.as_str(), "base64") {
        Ok(Encoding::Base64)
    } else {
        let mut msg = "unsupported encoding_format '".to_owned();
        msg.append(f.as_str());
        msg.append("': expected 'float' or 'base64'");
        Err(ApiError::InvalidRequest(msg))
    }
}

// ---------------------------------------------------------------------------
// The walk
// ---------------------------------------------------------------------------

/// What the request waits for.
#[derive(Debug, Clone, Copy, PartialEq, Eq, Structural)]
pub enum EmbedPhase {
    Policy,
    Resolution,
    Candidate,
    Attempt,
    Next,
    Ended,
}

/// What the driver is to do.
#[derive(Debug, PartialEq, Eq)]
pub enum EmbedAction {
    CheckPolicy { model: String },
    /// What does this name resolve to, and is that in rotation?
    Resolve { model: String },
    /// Is this pair in rotation, and is there an adapter for it?
    CheckCandidate { provider: String, model: String },
    /// Call the provider.
    Attempt { provider: String, model: String },
    /// What comes after this model in the fallback chain, and what does it
    /// resolve to?
    NextFallback { after: String },
    /// This pair answered.
    Answered { provider: String, model: String },
    Fail(ApiError),
}

/// One request.
#[derive(Debug, PartialEq, Eq)]
pub struct EmbedFlow {
    pub attribution: Attribution,
    /// The name that the caller sent.
    pub model: String,
    pub input: Vec<String>,
    pub dimensions: Option<u32>,
    pub encoding: Encoding,
    pub provider: String,
    pub canonical: String,
    pub hops: usize,
    /// The error that stands if the chain is at its end.
    pub pending: String,
    /// The policy let the request through.
    pub admitted: bool,
    /// What the caller asked for is in rotation.
    pub available: bool,
    /// The current pair is in rotation and has an adapter.
    pub callable: bool,
    pub phase: EmbedPhase,
}

pub open spec fn failure(a: EmbedAction) -> Option<ApiError> {
    match a {
        EmbedAction::Fail(e) => Some(e),
        _ => None,
    }
}

pub open spec fn attempts(a: EmbedAction, provider: Seq<char>, model: Seq<char>) -> bool {
    a matches EmbedAction::Attempt { provider: p, model: m } && p@ == provider && m@ == model
}

pub open spec fn asks_about(a: EmbedAction, provider: Seq<char>, model: Seq<char>) -> bool {
    a matches EmbedAction::CheckCandidate { provider: p, model: m } && p@ == provider && m@ == model
}

/// Why a pair is not called: it is disabled, or nobody can call it.
pub open spec fn ruled_out(disabled: Option<Unavailable>, adapter: Result<(), String>) -> Option<
    Seq<char>,
> {
    match (disabled, adapter) {
        (Some(u), _) => Some(u.0@),
        (None, Err(msg)) => Some(msg@),
        (None, Ok(_)) => None,
    }
}

/// What a request asks for, or what is wrong with it, after the policy let it
/// through.
pub open spec fn body_error(body: JsonModel) -> Option<Seq<char>> {
    match stated_input(body) {
        Err(msg) => Some(msg),
        Ok(_) => match stated_encoding(body) {
            Err(msg) => Some(msg),
            Ok(_) => None,
        },
    }
}

/// Which phase may come after which: a pair is looked at, tried, and given up for
/// the next one.
pub open spec fn follows(p: EmbedPhase, q: EmbedPhase) -> bool {
    match q {
        EmbedPhase::Policy => false,
        EmbedPhase::Resolution => p == EmbedPhase::Policy,
        EmbedPhase::Candidate => p == EmbedPhase::Resolution || p == EmbedPhase::Next,
        EmbedPhase::Attempt => p == EmbedPhase::Candidate,
        EmbedPhase::Next => p == EmbedPhase::Candidate || p == EmbedPhase::Attempt,
        EmbedPhase::Ended => p != EmbedPhase::Ended,
    }
}

impl EmbedFlow {
    /// No provider is called that the policy forbids, for a name that an operator
    /// has disabled, or that is itself disabled, and the chain is followed a
    /// bounded way.
    pub open spec fn wf(&self) -> bool {
        &&& self.hops <= MAX_HOPS
        &&& self.phase == EmbedPhase::Resolution || self.phase == EmbedPhase::Candidate
            || self.phase == EmbedPhase::Attempt || self.phase == EmbedPhase::Next
            ==> self.admitted
        &&& self.phase == EmbedPhase::Candidate || self.phase == EmbedPhase::Attempt || self.phase
            == EmbedPhase::Next ==> self.available
        &&& self.phase == EmbedPhase::Attempt ==> self.callable
        &&& self.phase == EmbedPhase::Next ==> self.hops < MAX_HOPS
    }

    pub open spec fn goes_on(&self, next: EmbedFlow, action: EmbedAction) -> bool {
        &&& next.wf()
        &&& next.attribution == self.attribution
        &&& next.model == self.model
        &&& action is Fail || action is Answered <==> next.phase == EmbedPhase::Ended
        &&& action is Attempt <==> next.phase == EmbedPhase::Attempt
        &&& follows(self.phase, next.phase)
        &&& next.hops == self.hops + (if next.phase == EmbedPhase::Candidate && self.phase
            == EmbedPhase::Next {
            1int
        } else {
            0int
        })
    }

    pub open spec fn same_job(&self, next: EmbedFlow) -> bool {
        &&& next.input == self.input
        &&& next.dimensions == self.dimensions
        &&& next.encoding == self.encoding
    }

    pub fn begin(refusal: Option<BindError>, headers: &HeaderMap<HeaderValue>, body: &Json) -> (r:
        Result<(EmbedFlow, EmbedAction), ApiError>)
        requires
            body.wf(),
        ensures
            match refusal {
                Some(err) => r matches Err(e) && is_invalid(e, err.0@),
                None => match extracted(body.model(), *headers) {
                    Err(msg) => r matches Err(e) && is_invalid(e, msg),
                    Ok(a) => {
                        &&& r matches Ok((flow, action))
                        &&& flow.wf()
                        &&& flow.attribution@ == a
                        &&& flow.model@ == text_or(body.model(), "model"@, EMBEDDING_MODEL@)
                        &&& flow.hops == 0
                        &&& flow.phase == EmbedPhase::Policy
                        &&& action matches EmbedAction::CheckPolicy { model } && model@ == text_or(
                            body.model(),
                            "model"@,
                            EMBEDDING_MODEL@,
                        )
                    },
                },
            },
    {
        match reject_experiment_header(refusal) {
            Err(e) => {
                return Err(e);
            },
            Ok(_) => {},
        }
        let attribution = match Attribution::extract(body, headers) {
            Ok(a) => a,
            Err(e) => {
                return Err(ApiError::InvalidRequest(e.0));
            },
        };
        let model = member_text(body, "model", EMBEDDING_MODEL);
        let action = EmbedAction::CheckPolicy { model: model.clone() };
        let flow = EmbedFlow {
            attribution,
            model,
            input: Vec::new(),
            dimensions: None,
            encoding: Encoding::Numbers,
            provider: String::new(),
            canonical: String::new(),
            hops: 0,
            pending: String::new(),
            admitted: false,
            available: false,
            callable: false,
            phase: EmbedPhase::Policy,
        };
        Ok((flow, action))
    }

    /// The policy engine decided; an admitted request is then read. Concurrency
    /// is not limited here.
    pub fn on_policy(&mut self, asked: Result<PolicyDecision, String>, body: &Json) -> (r:
        EmbedAction)
        requires
            old(self).wf(),
            old(self).phase == EmbedPhase::Policy,
        ensures
            old(self).goes_on(*final(self), r),
            final(self).hops == old(self).hops,
            match asked {
                Err(_) => failure(r) == Some(ApiError::Internal),
                Ok(PolicyDecision::Deny { reason, status, .. }) => failure(r) matches Some(e)
                    && is_denial(e, reason@, status),
                Ok(PolicyDecision::Allow { .. }) => match body_error(body.model()) {
                    Some(msg) => failure(r) matches Some(e) && is_invalid(e, msg),
                    None => {
                        &&& final(self).phase == EmbedPhase::Resolution
                        &&& Ok::<Seq<Seq<char>>, Seq<char>>(texts(final(self).input@))
                            == stated_input(body.model())
                        &&& final(self).dimensions == stated_dimensions(body.model())
                        &&& Ok::<Encoding, Seq<char>>(final(self).encoding) == stated_encoding(
                            body.model(),
                        )
                        &&& r matches EmbedAction::Resolve { model } && model@ == old(self).model@
                    },
                },
            },
    {
        match pass_policy(asked) {
            Err(e) => {
                self.phase = EmbedPhase::Ended;
                return EmbedAction::Fail(e);
            },
            Ok(_) => {},
        }
        match parse_input(body) {
            Err(e) => {
                self.phase = EmbedPhase::Ended;
                return EmbedAction::Fail(e);
            },
            Ok(input) => {
                self.input = input;
            },
        }
        self.dimensions = parse_dimensions(body);
        match parse_encoding(body) {
            Err(e) => {
                self.phase = EmbedPhase::Ended;
                return EmbedAction::Fail(e);
            },
            Ok(f) => {
                self.encoding = f;
            },
        }
        self.admitted = true;
        self.phase = EmbedPhase::Resolution;
        EmbedAction::Resolve { model: self.model.clone() }
    }

    /// What the caller asked for resolved. A model that an operator has taken
    /// out of rotation is refused, not quietly answered by another one.
    pub fn on_resolved(
        &mut self,
        resolution: Resolution,
        disabled: Option<Unavailable>,
        strict: bool,
    ) -> (r: EmbedAction)
        requires
            old(self).wf(),
            old(self).phase == EmbedPhase::Resolution,
        ensures
            old(self).goes_on(*final(self), r),
            old(self).same_job(*final(self)),
            final(self).hops == old(self).hops,
            match disabled {
                Some(u) => failure(r) matches Some(e) && is_disabled(e, u.0@),
                None => if resolution.substituted && strict {
                    failure(r) matches Some(e) && is_invalid(
                        e,
                        substitution_refusal(old(self).model@, resolution.model@),
                    )
                } else {
                    &&& asks_about(r, resolution.provider@, resolution.model@)
                    &&& final(self).phase == EmbedPhase::Candidate
                    &&& final(self).provider == resolution.provider
                    &&& final(self).canonical == resolution.model
                },
            },
    {
        match disabled {
            Some(u) => {
                self.phase = EmbedPhase::Ended;
                return EmbedAction::Fail(ApiError::Disabled(u.0));
            },
            None => {},
        }
        match guard_model_substitution(self.model.as_str(), &resolution, strict) {
            Err(e) => {
                self.phase = EmbedPhase::Ended;
                return EmbedAction::Fail(e);
            },
            Ok(_) => {},
        }
        self.available = true;
        self.provider = resolution.provider;
        self.canonical = resolution.model;
        self.callable = false;
        self.phase = EmbedPhase::Candidate;
        EmbedAction::CheckCandidate {
            provider: self.provider.clone(),
            model: self.canonical.clone(),
        }
    }

    /// The current pair cannot answer, for the reason `message`: go on along the
    /// chain, as long as the bound allows.
    fn give_up(&mut self, message: String) -> (r: EmbedAction)
        requires
            old(self).wf(),
            old(self).phase == EmbedPhase::Candidate || old(self).phase == EmbedPhase::Attempt,
        ensures
            old(self).goes_on(*final(self), r),
            old(self).same_job(*final(self)),
            final(self).provider == old(self).provider,
            final(self).canonical == old(self).canonical,
            final(self).hops == old(self).hops,
            gives_up(*old(self), *final(self), r, message@),
    {
        self.callable = false;
        if self.hops >= MAX_HOPS {
            self.phase = EmbedPhase::Ended;
            return EmbedAction::Fail(ApiError::ProviderError(message));
        }
        self.pending = message;
        self.phase = EmbedPhase::Next;
        EmbedAction::NextFallback { after: self.canonical.clone() }
    }

    /// Whether the current pair can be called. A disabled candidate and a missing
    /// adapter count as failed calls, since an alternative helps with both.
    pub fn on_candidate(&mut self, disabled: Option<Unavailable>, adapter: Result<(), String>) -> (r:
        EmbedAction)
        requires
            old(self).wf(),
            old(self).phase == EmbedPhase::Candidate,
        ensures
            old(self).goes_on(*final(self), r),
            old(self).same_job(*final(self)),
            final(self).provider == old(self).provider,
            final(self).canonical == old(self).canonical,
            final(self).hops == old(self).hops,
            match ruled_out(disabled, adapter) {
                Some(msg) => gives_up(*old(self), *final(self), r, msg),
                None => attempts(r, old(self).provider@, old(self).canonical@),
            },
    {
        match disabled {
            Some(u) => {
                return self.give_up(u.0);
            },
            None => {},
        }
        match adapter {
            Err(msg) => self.give_up(msg),
            Ok(_) => {
                self.callable = true;
                self.phase = EmbedPhase::Attempt;
                EmbedAction::Attempt {
                    provider: self.provider.clone(),
                    model: self.canonical.clone(),
                }
            },
        }
    }

    /// The call succeeded, or failed with a message.
    pub fn on_attempt(&mut self, result: Result<(), String>) -> (r: EmbedAction)
        requires
            old(self).wf(),
            old(self).phase == EmbedPhase::Attempt,
        ensures
            old(self).goes_on(*final(self), r),
            old(self).same_job(*final(self)),
            final(self).provider == old(self).provider,
            final(self).canonical == old(self).canonical,
            final(self).hops == old(self).hops,
            match result {
                Ok(_) => r matches EmbedAction::Answered { provider, model } && provider@
                    == old(self).provider@ && model@ == old(self).canonical@,
                Err(msg) => gives_up(*old(self), *final(self), r, msg@),
            },
    {
        match result {
            Ok(_) => {
                self.phase = EmbedPhase::Ended;
                EmbedAction::Answered {
                    provider: self.provider.clone(),
                    model: self.canonical.clone(),
                }
            },
            Err(msg) => self.give_up(msg),
        }
    }

    /// The next entry of the chain, resolved, or its end.
    pub fn on_next(&mut self, next: Option<(String, String)>) -> (r: EmbedAction)
        requires
            old(self).wf(),
            old(self).phase == EmbedPhase::Next,
        ensures
            old(self).goes_on(*final(self), r),
            old(self).same_job(*final(self)),
            match next {
                None => failure(r) matches Some(e) && is_provider_error(e, old(self).pending@),
                Some((provider, model)) => {
                    &&& asks_about(r, provider@, model@)
                    &&& final(self).phase == EmbedPhase::Candidate
                    &&& final(self).provider == provider
                    &&& final(self).canonical == model
                    &&& final(self).hops == old(self).hops + 1
                },
            },
    {
        match next {
            None => {
                self.phase = EmbedPhase::Ended;
                EmbedAction::Fail(ApiError::ProviderError(self.pending.clone()))
            },
            Some((provider, model)) => {
                self.hops = self.hops + 1;
                self.provider = provider;
                self.canonical = model;
                self.callable = false;
                self.phase = EmbedPhase::Candidate;
                EmbedAction::CheckCandidate {
                    provider: self.provider.clone(),
                    model: self.canonical.clone(),
                }
            },
        }
    }

    /// The call that the answer is charged as.
    pub fn call(&self, user: &User, prompt_tokens: u32, cost_usd: Usd, latency_ms: i64) -> (r: Call)
        ensures
            r.payer.pays_for(*user, self.attribution),
            r.request_model@ == self.model@,
            r.model@ == self.canonical@,
            r.provider@ == self.provider@,
            r.messages@ == "[]"@,
            r.response is None,
            r.finish_reason is None,
            r.prompt_tokens == prompt_tokens,
            r.completion_tokens == 0,
            r.cache_read_tokens == 0,
            r.cache_write_tokens == 0,
            !r.tokens_estimated,
            r.cost_usd == cost_usd,
            r.latency_ms == Some(latency_ms),
            r.ttft_ms is None,
            r.attempts is None,
    {
        plain_call(
            Payer::new(user, &self.attribution),
            self.model.clone(),
            self.provider.clone(),
            self.canonical.clone(),
            prompt_tokens as i64,
            0,
            cost_usd,
            Some(latency_ms),
        )
    }
}

/// The step after the current pair turned out not to answer: the next entry of
/// the chain is asked for, and at the bound the error stands.
pub open spec fn gives_up(
    before: EmbedFlow,
    after: EmbedFlow,
    action: EmbedAction,
    message: Seq<char>,
) -> bool {
    if before.hops >= MAX_HOPS {
        failure(action) matches Some(e) && is_provider_error(e, message)
    } else {
        &&& after.phase == EmbedPhase::Next
        &&& after.pending@ == message
        &&& action matches EmbedAction::NextFallback { after: a } && a@ == before.canonical@
    }
}

// ---------------------------------------------------------------------------
// The answer
// ---------------------------------------------------------------------------

/// One vector: the bits of its single-precision components, and the same as a
/// JSON array of numbers.
#[derive(Debug, PartialEq, Eq)]
pub struct EmbeddingVector {
    pub bits: Vec<u32>,
    pub numbers: Json,
}

/// The bytes of a number, the lowest first.
pub open spec fn little_endian(n: u32) -> Seq<u8> {
    seq![
        (n % 256) as u8,
        (n / 256 % 256) as u8,
        (n / 65536 % 256) as u8,
        (n / 16777216) as u8,
    ]
}

/// The components of a vector, byte by byte.
pub open spec fn vector_bytes(bits: Seq<u32>) -> Seq<u8>
    decreases bits.len(),
{
    if bits.len() == 0 {
        Seq::empty()
    } else {
        vector_bytes(bits.drop_last()) + little_endian(bits.last())
    }
}

pub fn to_bytes(bits: &Vec<u32>) -> (r: Vec<u8>)
    ensures
        r@ == vector_bytes(bits@),
{
    let mut out: Vec<u8> = Vec::new();
    let mut i: usize = 0;
    while i < bits.len()
        invariant
            i <= bits@.len(),
            out@ == vector_bytes(bits@.take(i as int)),
        decreases bits@.len() - i,
    {
        assert(bits@.take(i + 1).drop_last() =~= bits@.take(i as int));
        let ghost before = out@;
        let n: u32 = bits[i];
        out.push((n % 256) as u8);
        out.push((n / 256 % 256) as u8);
        out.push((n / 65536 % 256) as u8);
        out.push((n / 16777216) as u8);
        assert(out@ =~= before + little_endian(n));
        i += 1;
    }
    assert(bits@.take(i as int) =~= bits@);
    out
}

/// A vector as the caller asked for it. A client that asked for base64 would
/// decode a list of numbers into nonsense without noticing.
pub open spec fn encoded_vector(v: EmbeddingVector, encoding: Encoding) -> JsonModel {
    match encoding {
        Encoding::Numbers => v.numbers.model(),
        Encoding::Base64 => JsonModel::Str(base64_text(vector_bytes(v.bits@))),
    }
}

pub open spec fn embedding_object(index: int, embedding: JsonModel) -> JsonModel {
    let o = with_entry(Seq::empty(), "object"@, JsonModel::Str("embedding"@));
    let o = with_entry(o, "index"@, JsonModel::Int(index));
    JsonModel::Obj(with_entry(o, "embedding"@, embedding))
}

pub open spec fn embedding_objects(vectors: Seq<EmbeddingVector>, encoding: Encoding) -> Seq<
    JsonModel,
> {
    Seq::new(
        vectors.len(),
        |i: int| embedding_object(i, encoded_vector(vectors[i], encoding)),
    )
}

/// The body of an answer.
pub open spec fn embeddings_body(
    vectors: Seq<EmbeddingVector>,
    encoding: Encoding,
    model: Seq<char>,
    prompt_tokens: u32,
) -> JsonModel {
    let u = with_entry(Seq::empty(), "prompt_tokens"@, JsonModel::Int(prompt_tokens as int));
    let u = with_entry(u, "total_tokens"@, JsonModel::Int(prompt_tokens as int));
    let b = with_entry(Seq::empty(), "object"@, JsonModel::Str("list"@));
    let b = with_entry(b, "data"@, JsonModel::Arr(embedding_objects(vectors, encoding)));
    let b = with_entry(b, "model"@, JsonModel::Str(model));
    JsonModel::Obj(with_entry(b, "usage"@, JsonModel::Obj(u)))
}

/// Builds the answer.
pub fn build_embeddings(
    vectors: &Vec<EmbeddingVector>,
    encoding: Encoding,
    model: &str,
    prompt_tokens: u32,
) -> (r: Json)
    requires
        forall|i: int| 0 <= i < vectors@.len() ==> (#[trigger] vectors@[i]).numbers.wf(),
    ensures
        r.model() == embeddings_body(vectors@, encoding, model@, prompt_tokens),
        r.wf(),
{
    let mut data: Vec<Json> = Vec::new();
    let ghost want = embedding_objects(vectors@, encoding);
    let mut i: usize = 0;
    while i < vectors.len()
        invariant
            i <= vectors@.len(),
            forall|k: int| 0 <= k < vectors@.len() ==> (#[trigger] vectors@[k]).numbers.wf(),
            want == embedding_objects(vectors@, encoding),
            list_models(data@) == want.take(i as int),
            forall|k: int| 0 <= k < i ==> (#[trigger] want[k]).wf(),
        decreases vectors@.len() - i,
    {
        let v = &vectors[i];
        let embedding = match encoding {
            Encoding::Numbers => v.numbers.copied(),
            Encoding::Base64 => Json::Str(base64_standard(&to_bytes(&v.bits))),
        };
        let item = Json::object().with("object", Json::Str("embedding".to_owned())).with(
            "index",
            Json::PosInt(i as u64),
        ).with("embedding", embedding);
        let ghost before = list_models(data@);
        data.push(item);
        assert(item.model() == want[i as int]);
        assert(list_models(data@) =~= before.push(item.model()));
        assert(list_models(data@) =~= want.take(i + 1));
        i += 1;
    }
    let list = Json::Arr(data);
    proof {
        Json::lemma_arr(data);
        assert(list_models(data@) =~= want);
    }
    let usage = Json::object().with("prompt_tokens", Json::PosInt(prompt_tokens as u64)).with(
        "total_tokens",
        Json::PosInt(prompt_tokens as u64),
    );
    Json::object().with("object", Json::Str("list".to_owned())).with("data", list).with(
        "model",
        Json::Str(model.to_owned()),
    ).with("usage", usage)
}

// ---------------------------------------------------------------------------
// Laws
// ---------------------------------------------------------------------------

/// One step of a request, as the methods of the flow promise it.
pub struct EmbedStep {
    pub before: EmbedFlow,
    pub after: EmbedFlow,
    pub action: EmbedAction,
}

/// Whether steps follow one another.
pub open spec fn is_walk(steps: Seq<EmbedStep>) -> bool {
    &&& forall|i: int|
        0 <= i < steps.len() ==> (#[trigger] steps[i]).before.goes_on(
            steps[i].after,
            steps[i].action,
        )
    &&& forall|i: int, j: int|
        0 <= i && i + 1 == j && j < steps.len() ==> (#[trigger] steps[i]).after
            == (#[trigger] steps[j]).before
}

/// How many of the steps called a provider.
pub open spec fn tries_made(steps: Seq<EmbedStep>) -> int
    decreases steps.len(),
{
    if steps.len() == 0 {
        0
    } else {
        tries_made(steps.drop_last()) + (if steps.last().action is Attempt {
            1int
        } else {
            0int
        })
    }
}

/// How many pairs a request has had the chance to try.
spec fn pairs_tried(f: EmbedFlow) -> int {
    match f.phase {
        EmbedPhase::Attempt | EmbedPhase::Next | EmbedPhase::Ended => f.hops + 1,
        _ => f.hops as int,
    }
}

proof fn lemma_tries(steps: Seq<EmbedStep>)
    requires
        is_walk(steps),
        steps.len() > 0,
        steps[0].before.phase == EmbedPhase::Policy,
        steps[0].before.hops == 0,
    ensures
        tries_made(steps) <= pairs_tried(steps.last().after),
    decreases steps.len(),
{
    let front = steps.drop_last();
    let last = steps.last();
    assert(steps[steps.len() - 1].before.goes_on(last.after, last.action));
    if front.len() > 0 {
        assert forall|i: int| 0 <= i < front.len() implies (#[trigger] front[i]).before.goes_on(
            front[i].after,
            front[i].action,
        ) by {
            assert(front[i] == steps[i]);
        }
        assert forall|i: int, j: int| 0 <= i && i + 1 == j && j < front.len() implies (
        #[trigger] front[i]).after == (#[trigger] front[j]).before by {
            assert(front[i] == steps[i] && front[j] == steps[j]);
        }
        assert(front[0] == steps[0]);
        lemma_tries(front);
        assert(front.last() == steps[steps.len() - 2]);
        assert(steps[steps.len() - 2].after == steps[steps.len() - 1].before);
    } else {
        assert(tries_made(front) == 0);
        assert(steps[0] == last);
    }
}

/// However its tries end, a request calls providers at most nine times, the first
/// call included.
pub proof fn embedding_walks_are_bounded(steps: Seq<EmbedStep>)
    requires
        is_walk(steps),
        steps.len() > 0,
        steps[0].before.phase == EmbedPhase::Policy,
        steps[0].before.hops == 0,
    ensures
        tries_made(steps) <= MAX_HOPS + 1,
{
    lemma_tries(steps);
    assert(steps[steps.len() - 1].before.goes_on(steps.last().after, steps.last().action));
}

/// A disabled pair is never called, wherever on the chain it stands, and what the
/// caller asked for is never routed around an operator's disabling.
pub proof fn disabled_embedders_are_not_called(
    before: EmbedFlow,
    after: EmbedFlow,
    action: EmbedAction,
)
    requires
        before.goes_on(after, action),
        action is Attempt,
    ensures
        after.admitted,
        after.available,
        after.callable,
{
}

/// In base64 a vector takes four bytes for each component.
pub proof fn vectors_keep_their_width(bits: Seq<u32>)
    ensures
        vector_bytes(bits).len() == 4 * bits.len(),
    decreases bits.len(),
{
    if bits.len() > 0 {
        vectors_keep_their_width(bits.drop_last());
    }
}

/// The texts of a list are embedded in the order in which they stand in it, none left
/// out and nothing added; where the list holds nothing but texts, they stand where they
/// stood. One text alone is embedded as it is, and without any text there is nothing to
/// embed.
pub proof fn texts_are_embedded_in_order(body: JsonModel)
    ensures
        body.at("input"@) matches JsonModel::Str(s) ==> stated_input(body) == Ok::<
            Seq<Seq<char>>,
            Seq<char>,
        >(seq![s]),
        body.at("input"@) matches JsonModel::Arr(items) ==> {
            &&& stated_input(body) is Ok <==> exists|i: int|
                0 <= i < items.len() && (#[trigger] items[i]) is Str
            &&& stated_input(body) matches Ok(list) ==> selects(
                list,
                items,
                |m: JsonModel| m is Str,
                |m: JsonModel| m->Str_0,
            )
            &&& stated_input(body) matches Ok(list) ==> (forall|i: int|
                0 <= i < items.len() ==> (#[trigger] items[i]) is Str) ==> list.len() == items.len()
                && forall|i: int|
                0 <= i < list.len() ==> JsonModel::Str(#[trigger] list[i]) == items[i]
        },
        !(body.at("input"@) is Str) && !(body.at("input"@) is Arr) ==> stated_input(body) is Err,
{
    if let JsonModel::Arr(items) = body.at("input"@) {
        lemma_texts_are_picked(items);
        lemma_picked_selects(
            items,
            |m: JsonModel| m is Str,
            |m: JsonModel| m->Str_0,
            |m: JsonModel| m is Str,
            |m: JsonModel| m->Str_0,
        );
        let list = texts_among(items);
        let keep = |m: JsonModel| m is Str;
        let text = |m: JsonModel| m->Str_0;
        let places = choose|places: Seq<int>| #[trigger] selects_at(list, items, keep, text, places);
        if list.len() > 0 {
            assert(items[places[0]] is Str);
        } else {
            assert forall|i: int| 0 <= i < items.len() implies !((#[trigger] items[i]) is Str) by {
                if items[i] is Str {
                    assert(places.contains(i));
                }
            }
        }
        if forall|i: int| 0 <= i < items.len() ==> (#[trigger] items[i]) is Str {
            lemma_only_texts(items);
        }
    }
}

proof fn lemma_texts_are_picked(items: Seq<JsonModel>)
    ensures
        texts_among(items) == picked(items, |m: JsonModel| m is Str, |m: JsonModel| m->Str_0),
    decreases items.len(),
{
    if items.len() > 0 {
        lemma_texts_are_picked(items.drop_last());
    }
}

proof fn lemma_only_texts(items: Seq<JsonModel>)
    requires
        forall|i: int| 0 <= i < items.len() ==> (#[trigger] items[i]) is Str,
    ensures
        texts_among(items).len() == items.len(),
        forall|i: int|
            0 <= i < items.len() ==> JsonModel::Str(#[trigger] texts_among(items)[i]) == items[i],
    decreases items.len(),
{
    if items.len() > 0 {
        let front = items.drop_last();
        assert forall|i: int| 0 <= i < front.len() implies (#[trigger] front[i]) is Str by {
            assert(front[i] == items[i]);
        }
        lemma_only_texts(front);
        assert(items[items.len() - 1] is Str);
        assert forall|i: int| 0 <= i < items.len() implies JsonModel::Str(
            #[trigger] texts_among(items)[i],
        ) == items[i] by {
            if i < front.len() {
                assert(texts_among(items)[i] == texts_among(front)[i]);
                assert(front[i] == items[i]);
            }
        }
    }
}

/// The answer holds the vectors in the order of the texts, each under its own number and
/// written as the caller asked, with the model and the tokens that were counted.
pub proof fn vectors_are_answered_in_order(
    vectors: Seq<EmbeddingVector>,
    encoding: Encoding,
    model: Seq<char>,
    tokens: u32,
    answer: JsonModel,
)
    requires
        answer == embeddings_body(vectors, encoding, model, tokens),
    ensures
        answer.at("object"@) == JsonModel::Str("list"@),
        answer.at("model"@) == JsonModel::Str(model),
        answer.at("usage"@).at("prompt_tokens"@) == JsonModel::Int(tokens as int),
        answer.at("usage"@).at("total_tokens"@) == JsonModel::Int(tokens as int),
        answer.at("data"@).items() matches Some(data) && data.len() == vectors.len(),
        forall|i: int|
            0 <= i < vectors.len() ==> {
                let item = #[trigger] answer.at("data"@).item(i);
                &&& item.at("object"@) == JsonModel::Str("embedding"@)
                &&& item.at("index"@) == JsonModel::Int(i)
                &&& item.at("embedding"@) == match encoding {
                    Encoding::Numbers => vectors[i].numbers.model(),
                    Encoding::Base64 => JsonModel::Str(base64_text(vector_bytes(vectors[i].bits@))),
                }
            },
{
    broadcast use {
        crate::ordered::entries_are_found,
        crate::ordered::nothing_is_found_in_nothing,
    };

    reveal_strlit("object");
    reveal_strlit("model");
    reveal_strlit("usage");
    reveal_strlit("prompt_tokens");
    reveal_strlit("total_tokens");
    reveal_strlit("data");
    reveal_strlit("index");
    reveal_strlit("embedding");
    assert("object"@.len() == 6);
    assert("model"@.len() == 5 && "model"@[0] == 'm');
    assert("usage"@.len() == 5 && "usage"@[0] == 'u');
    assert("prompt_tokens"@.len() == 13);
    assert("total_tokens"@.len() == 12);
    assert("data"@.len() == 4);
    assert("index"@.len() == 5 && "index"@[0] == 'i');
    assert("embedding"@.len() == 9);
}

/// Every component of a vector can be read back from its four bytes, the lowest first.
pub proof fn components_read_back(bits: Seq<u32>, k: int)
    requires
        0 <= k < bits.len(),
    ensures
        ({
            let b = vector_bytes(bits);
            &&& b.len() == 4 * bits.len()
            &&& bits[k] == b[4 * k] + 256 * b[4 * k + 1] + 65536 * b[4 * k + 2] + 16777216 * b[4 * k
                + 3]
        }),
    decreases bits.len(),
{
    vectors_keep_their_width(bits);
    let front = bits.drop_last();
    vectors_keep_their_width(front);
    if k < front.len() {
        components_read_back(front, k);
        let f = vector_bytes(front);
        let b = vector_bytes(bits);
        assert(b[4 * k] == f[4 * k] && b[4 * k + 1] == f[4 * k + 1] && b[4 * k + 2] == f[4 * k + 2]
            && b[4 * k + 3] == f[4 * k + 3]);
    } else {
        let n = bits.last();
        let b = vector_bytes(bits);
        assert(b[4 * k] == n % 256 && b[4 * k + 1] == n / 256 % 256 && b[4 * k + 2] == n / 65536
            % 256 && b[4 * k + 3] == n / 16777216);
    }
}

/// Vectors are written as numbers unless the caller asks for base64, and any other wish is
/// refused; the width that the caller pins is the one that is asked for.
pub proof fn the_encoding_is_the_one_asked_for(body: JsonModel)
    ensures
        body.at("encoding_format"@) == JsonModel::Str("base64"@) ==> stated_encoding(body) == Ok::<
            Encoding,
            Seq<char>,
        >(Encoding::Base64),
        body.at("encoding_format"@) == JsonModel::Str("float"@) || !(body.at("encoding_format"@) is Str)
            ==> stated_encoding(body) == Ok::<Encoding, Seq<char>>(Encoding::Numbers),
        body.at("encoding_format"@) matches JsonModel::Str(f) ==> (f != "float"@ && f != "base64"@
            ==> stated_encoding(body) is Err),
        body.at("dimensions"@) matches JsonModel::Int(n) ==> (0 <= n <= u32::MAX ==> stated_dimensions(body)
            == Some(n as u32)),
        !(body.at("dimensions"@) is Int) ==> stated_dimensions(body) is None,
{
    reveal_strlit("encoding_format");
    reveal_strlit("base64");
    reveal_strlit("float");
    reveal_strlit("dimensions");
    assert("encoding_format"@.len() == 15);
    assert("base64"@.len() == 6);
    assert("float"@.len() == 5);
    assert("dimensions"@.len() == 10);
}

/// A pair that does not answer is passed for the next in the chain behind it, and its
/// reason is kept; at the end of the bound that reason is the answer.
pub proof fn a_failed_pair_gives_way_to_the_next(
    before: EmbedFlow,
    after: EmbedFlow,
    action: EmbedAction,
    message: Seq<char>,
)
    requires
        gives_up(before, after, action, message),
    ensures
        before.hops < 8 ==> (action matches EmbedAction::NextFallback { after: name } && name@
            == before.canonical@) && after.phase == EmbedPhase::Next && after.pending@ == message,
        before.hops >= 8 ==> (action matches EmbedAction::Fail(ApiError::ProviderError(m)) && m@
            == message),
{
}

/// A step of the flow keeps who is charged and what was asked for; it fails or answers exactly
/// where it ends, calls exactly where it attempts, and moves on to another pair one at a time.
pub proof fn steps_keep_the_request(f: EmbedFlow, next: EmbedFlow, a: EmbedAction, p: Seq<char>, m: Seq<char>)
    ensures
        f.goes_on(next, a) ==> next.attribution == f.attribution && next.model == f.model,
        f.goes_on(next, a) ==> (a is Fail || a is Answered <==> next.phase == EmbedPhase::Ended),
        f.goes_on(next, a) ==> (a is Attempt <==> next.phase == EmbedPhase::Attempt),
        f.goes_on(next, a) ==> f.hops <= next.hops <= f.hops + 1,
        f.goes_on(next, a) ==> (next.hops == f.hops + 1 <==> f.phase == EmbedPhase::Next && next.phase
            == EmbedPhase::Candidate),
        f.same_job(next) ==> next.input == f.input && next.dimensions == f.dimensions && next.encoding
            == f.encoding,
        asks_about(a, p, m) <==> (a matches EmbedAction::CheckCandidate { provider, model } && provider@ == p
            && model@ == m),
        attempts(a, p, m) <==> (a matches EmbedAction::Attempt { provider, model } && provider@ == p && model@
            == m),
{
}

/// A body is at fault where its input or its encoding is, the input first.
pub proof fn bodies_are_at_fault_for_a_reason(body: JsonModel, m: Seq<char>)
    ensures
        body_error(body) is None <==> stated_input(body) is Ok && stated_encoding(body) is Ok,
        stated_input(body) == Err::<Seq<Seq<char>>, Seq<char>>(m) ==> body_error(body) == Some(m),
        stated_input(body) is Ok && stated_encoding(body) == Err::<Encoding, Seq<char>>(m) ==> body_error(body)
            == Some(m),
{
}

/// A pair is called only for a request that was let through, where it is in rotation and somebody
/// can call it; another pair is looked for at most eight times.
pub proof fn pairs_are_called_behind_every_gate(f: EmbedFlow)
    requires
        f.wf(),
    ensures
        f.phase == EmbedPhase::Attempt ==> f.admitted && f.available && f.callable,
        f.phase == EmbedPhase::Candidate || f.phase == EmbedPhase::Next ==> f.admitted && f.available,
        f.phase == EmbedPhase::Resolution ==> f.admitted,
        f.phase == EmbedPhase::Next ==> f.hops < 8,
        f.hops <= 8,
{
}

} // verus!
