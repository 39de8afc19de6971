//! Endpoints that hand a request on to one upstream: the gates in front of it,
//! and what its answer comes to.

use crate::api::error::{ApiError, BindError};
use crate::api::routes::gate::{
    is_denial, is_invalid, is_provider_error, pass_policy, reject_experiment_header, take_permit,
    PolicyDecision,
};
use crate::api::routes::usage::{Call, Payer};
use crate::records::Usd;
use crate::text::{nat_text, opt_text, same, trim_end_char, u64_text, without_trailing};
use vstd::prelude::*;

verus! {

/// What the request waits for.
#[derive(Debug, Clone, Copy, PartialEq, Eq, Structural)]
pub enum ProxyPhase {
    Policy,
    Permit,
    Breaker,
    Upstream,
    Ended,
}

/// What the driver is to do.
#[derive(Debug, PartialEq, Eq)]
pub enum ProxyAction {
    CheckPolicy { model: String },
    TakePermit { max: u32 },
    CheckBreaker { provider: String },
    Send,
    Fail(ApiError),
}

/// One request on its way to the upstream.
#[derive(Debug, PartialEq, Eq)]
pub struct ProxyFlow {
    pub model: String,
    pub provider: String,
    /// The policy let the request through.
    pub admitted: bool,
    pub phase: ProxyPhase,
}

pub open spec fn fails_as(a: ProxyAction) -> Option<ApiError> {
    match a {
        ProxyAction::Fail(e) => Some(e),
        _ => None,
    }
}

pub open spec fn broken_text(provider: Seq<char>) -> Seq<char> {
    provider + " is circuit-broken"@
}

pub open spec fn asks_breaker_of(a: ProxyAction, provider: Seq<char>) -> bool {
    a matches ProxyAction::CheckBreaker { provider: p } && p@ == provider
}

impl ProxyFlow {
    /// Nothing is sent upstream that the policy did not let through.
    pub open spec fn wf(&self) -> bool {
        self.phase == ProxyPhase::Breaker || self.phase == ProxyPhase::Upstream ==> self.admitted
    }

    /// What every step keeps.
    pub open spec fn goes_on(&self, next: ProxyFlow, action: ProxyAction) -> bool {
        &&& next.wf()
        &&& next.model == self.model
        &&& next.provider == self.provider
        &&& action is Fail <==> next.phase == ProxyPhase::Ended
        &&& action is Send <==> next.phase == ProxyPhase::Upstream
    }

    /// Begins: a request that asks for an experiment is refused first of all.
    pub fn begin(refusal: Option<BindError>, model: String, provider: String) -> (r: (
        ProxyFlow,
        ProxyAction,
    ))
        ensures
            r.0.wf(),
            r.0.model == model,
            r.0.provider == provider,
            match refusal {
                Some(err) => r.0.phase == ProxyPhase::Ended && (fails_as(r.1) matches Some(e)
                    && is_invalid(e, err.0@)),
                None => r.0.phase == ProxyPhase::Policy && (
                r.1 matches ProxyAction::CheckPolicy { model: m } && m@ == model@),
            },
    {
        match reject_experiment_header(refusal) {
            Err(e) => (
                ProxyFlow { model, provider, admitted: false, phase: ProxyPhase::Ended },
                ProxyAction::Fail(e),
            ),
            Ok(_) => {
                let action = ProxyAction::CheckPolicy { model: model.clone() };
                (ProxyFlow { model, provider, admitted: false, phase: ProxyPhase::Policy }, action)
            },
        }
    }

    /// The policy engine decided.
    pub fn on_policy(&mut self, asked: Result<PolicyDecision, String>) -> (r: ProxyAction)
        requires
            old(self).wf(),
            old(self).phase == ProxyPhase::Policy,
        ensures
            old(self).goes_on(*final(self), r),
            match asked {
                Err(_) => fails_as(r) == Some(ApiError::Internal),
                Ok(PolicyDecision::Deny { reason, status, .. }) => fails_as(r) matches Some(e)
                    && is_denial(e, reason@, status),
                Ok(PolicyDecision::Allow { max_concurrent: Some(n) }) => final(self).phase
                    == ProxyPhase::Permit && r == (ProxyAction::TakePermit { max: n }),
                Ok(PolicyDecision::Allow { max_concurrent: None }) => final(self).phase
                    == ProxyPhase::Breaker && asks_breaker_of(r, old(self).provider@),
            },
    {
        match pass_policy(asked) {
            Err(e) => {
                self.phase = ProxyPhase::Ended;
                ProxyAction::Fail(e)
            },
            Ok(Some(max)) => {
                self.phase = ProxyPhase::Permit;
                ProxyAction::TakePermit { max }
            },
            Ok(None) => {
                self.admitted = true;
                self.phase = ProxyPhase::Breaker;
                ProxyAction::CheckBreaker { provider: self.provider.clone() }
            },
        }
    }

    /// One of the concurrent requests was free, or not.
    pub fn on_permit(&mut self, acquired: bool) -> (r: ProxyAction)
        requires
            old(self).wf(),
            old(self).phase == ProxyPhase::Permit,
        ensures
            old(self).goes_on(*final(self), r),
            acquired ==> final(self).phase == ProxyPhase::Breaker && asks_breaker_of(
                r,
                old(self).provider@,
            ),
            !acquired ==> (fails_as(r) matches Some(e) && is_denial(
                e,
                "concurrent request limit exceeded"@,
                429,
            )),
    {
        match take_permit(acquired) {
            Err(e) => {
                self.phase = ProxyPhase::Ended;
                ProxyAction::Fail(e)
            },
            Ok(_) => {
                self.admitted = true;
                self.phase = ProxyPhase::Breaker;
                ProxyAction::CheckBreaker { provider: self.provider.clone() }
            },
        }
    }

    /// The circuit breaker answered.
    pub fn on_breaker(&mut self, open: bool) -> (r: ProxyAction)
        requires
            old(self).wf(),
            old(self).phase == ProxyPhase::Breaker,
        ensures
            old(self).goes_on(*final(self), r),
            open ==> (fails_as(r) matches Some(e) && is_provider_error(
                e,
                broken_text(old(self).provider@),
            )),
            !open ==> final(self).phase == ProxyPhase::Upstream && r is Send,
    {
        if open {
            self.phase = ProxyPhase::Ended;
            ProxyAction::Fail(
                ApiError::ProviderError(self.provider.clone().concat(" is circuit-broken")),
            )
        } else {
            self.phase = ProxyPhase::Upstream;
            ProxyAction::Send
        }
    }
}

// ---------------------------------------------------------------------------
// The upstream
// ---------------------------------------------------------------------------

/// What an exchange says of the provider's health.
#[derive(Debug, Clone, PartialEq, Eq)]
pub enum BreakerNote {
    Success,
    Failure,
    /// The provider answered with this error. Some errors are the caller's own
    /// doing, so the breaker looks at the words before it counts them.
    Erred(String),
}

pub open spec fn notes_error(note: BreakerNote, message: Seq<char>) -> bool {
    note matches BreakerNote::Erred(m) && m@ == message
}

/// The address of an endpoint: the configured base, or else the default, without
/// the slashes it ends in.
pub open spec fn endpoint(base: Option<Seq<char>>, default_base: Seq<char>, path: Seq<char>) -> Seq<
    char,
> {
    let b = match base {
        Some(b) => b,
        None => default_base,
    };
    without_trailing(b, '/') + path
}

pub fn endpoint_url(base: &Option<String>, default_base: &str, path: &str) -> (r: String)
    ensures
        r@ == endpoint(opt_text(*base), default_base@, path@),
{
    let b = match base {
        Some(b) => b.as_str(),
        None => default_base,
    };
    trim_end_char(b, '/').to_owned().concat(path)
}

pub open spec fn is_success(status: u16) -> bool {
    200 <= status < 300
}

/// What sending came to: a request that did not get through fails and speaks
/// against the provider; any answer speaks for it.
pub fn sent(result: Result<u16, String>) -> (r: (BreakerNote, Result<u16, ApiError>))
    ensures
        match result {
            Ok(status) => r == (BreakerNote::Success, Ok::<u16, ApiError>(status)),
            Err(msg) => r.0 == BreakerNote::Failure && (r.1 matches Err(e) && is_provider_error(
                e,
                "request failed: "@ + msg@,
            )),
        },
{
    match result {
        Ok(status) => (BreakerNote::Success, Ok(status)),
        Err(msg) => (
            BreakerNote::Failure,
            Err(
                ApiError::ProviderError("request failed: ".to_owned().concat(msg.as_str())),
            ),
        ),
    }
}

pub open spec fn status_text(status: u16, body: Option<Seq<char>>) -> Seq<char> {
    "provider returned "@ + nat_text(status as nat) + ": "@ + match body {
        Some(b) => b,
        None => "provider error"@,
    }
}

/// Whether an answer is one: anything but a success is the provider's error,
/// with what it said.
pub fn check_status(status: u16, body: Option<String>) -> (r: Result<(), ApiError>)
    ensures
        is_success(status) ==> r is Ok,
        !is_success(status) ==> (r matches Err(e) && is_provider_error(
            e,
            status_text(status, opt_text(body)),
        )),
{
    if 200 <= status && status < 300 {
        return Ok(());
    }
    let mut msg = "provider returned ".to_owned();
    msg.append(u64_text(status as u64).as_str());
    msg.append(": ");
    match body {
        Some(b) => {
            msg.append(b.as_str());
        },
        None => {
            msg.append("provider error");
        },
    }
    Err(ApiError::ProviderError(msg))
}

/// A call that has no chat messages and no stored response.
pub fn plain_call(
    payer: Payer,
    request_model: String,
    provider: String,
    model: String,
    units_in: i64,
    units_out: i64,
    cost_usd: Usd,
    latency_ms: Option<i64>,
) -> (r: Call)
    ensures
        r.payer == payer,
        r.request_model == request_model,
        r.provider == provider,
        r.model == model,
        r.messages@ == "[]"@,
        r.response is None,
        r.finish_reason is None,
        r.prompt_tokens == units_in,
        r.completion_tokens == units_out,
        r.cache_read_tokens == 0,
        r.cache_write_tokens == 0,
        !r.tokens_estimated,
        r.cost_usd == cost_usd,
        r.latency_ms == latency_ms,
        r.ttft_ms is None,
        r.attempts is None,
{
    Call {
        payer,
        request_model,
        model,
        provider,
        messages: "[]".to_owned(),
        response: None,
        finish_reason: None,
        prompt_tokens: units_in,
        completion_tokens: units_out,
        cache_read_tokens: 0,
        cache_write_tokens: 0,
        tokens_estimated: false,
        cost_usd,
        latency_ms,
        ttft_ms: None,
        attempts: None,
    }
}

// ---------------------------------------------------------------------------
// Prices per unit
// ---------------------------------------------------------------------------

/// A price from the configuration. For endpoints that charge per unit, the input
/// price is that of one unit.
#[derive(Debug, Clone, PartialEq, Eq)]
pub struct PricingEntry {
    pub model: String,
    pub input_per_million: Usd,
    pub output_per_million: Usd,
}

/// The first price for a name.
pub open spec fn price_of(pricing: Seq<PricingEntry>, name: Seq<char>) -> Option<PricingEntry>
    decreases pricing.len(),
{
    if pricing.len() == 0 {
        None
    } else if pricing[0].model@ == name {
        Some(pricing[0])
    } else {
        price_of(pricing.drop_first(), name)
    }
}

pub fn find_price<'a>(pricing: &'a Vec<PricingEntry>, name: &str) -> (r: Option<&'a PricingEntry>)
    ensures
        match r {
            Some(p) => price_of(pricing@, name@) == Some(*p),
            None => price_of(pricing@, name@) is None,
        },
{
    let mut i: usize = 0;
    assert(pricing@.skip(0) =~= pricing@);
    while i < pricing.len()
        invariant
            i <= pricing@.len(),
            price_of(pricing@.skip(i as int), name@) == price_of(pricing@, name@),
        decreases pricing@.len() - i,
    {
        if same(pricing[i].model.as_str(), name) {
            return Some(&pricing[i]);
        }
        assert(pricing@.skip(i as int).drop_first() =~= pricing@.skip(i + 1));
        i += 1;
    }
    None
}

/// The price of one unit, or else the default.
pub open spec fn unit_price(pricing: Seq<PricingEntry>, name: Seq<char>, default: Usd) -> Usd {
    match price_of(pricing, name) {
        Some(p) => p.input_per_million,
        None => default,
    }
}

pub fn find_unit_price(pricing: &Vec<PricingEntry>, name: &str, default: Usd) -> (r: Usd)
    ensures
        r == unit_price(pricing@, name@, default),
{
    match find_price(pricing, name) {
        Some(p) => p.input_per_million,
        None => default,
    }
}

/// The price of a model is that of the first entry under its name; without one the
/// default stands.
pub proof fn the_first_price_counts(
    pricing: Seq<PricingEntry>,
    name: Seq<char>,
    default: Usd,
    i: int,
)
    ensures
        0 <= i < pricing.len() && pricing[i].model@ == name && (forall|j: int|
            0 <= j < i ==> (#[trigger] pricing[j]).model@ != name) ==> price_of(pricing, name) == Some(
            pricing[i],
        ) && unit_price(pricing, name, default) == pricing[i].input_per_million,
        (forall|j: int| 0 <= j < pricing.len() ==> (#[trigger] pricing[j]).model@ != name)
            ==> price_of(pricing, name) is None && unit_price(pricing, name, default) == default,
    decreases pricing.len(),
{
    if pricing.len() > 0 {
        let rest = pricing.drop_first();
        the_first_price_counts(rest, name, default, i - 1);
        assert(forall|j: int| 0 <= j < rest.len() ==> #[trigger] rest[j] == pricing[j + 1]);
    }
}

/// An endpoint is the base, without the slashes it ends with, and the path; without a base
/// the default stands in. A status from 200 to 299 is a success.
pub proof fn endpoints_stand_on_their_base(base: Seq<char>, default_base: Seq<char>, path: Seq<char>, status: u16)
    ensures
        endpoint(None, default_base, path) == endpoint(Some(default_base), base, path),
        base.len() > 0 && base.last() != '/' ==> endpoint(Some(base), default_base, path) == base + path,
        endpoint(Some(base.push('/')), default_base, path) == endpoint(Some(base), default_base, path),
        is_success(200) && is_success(299) && !is_success(199) && !is_success(300),
        is_success(status) <==> status / 100 == 2,
        status_text(status, Some(path)) == "provider returned "@ + nat_text(status as nat) + ": "@ + path,
        status_text(status, None) == "provider returned "@ + nat_text(status as nat) + ": "@
            + "provider error"@,
        broken_text(base) == base + " is circuit-broken"@,
{
    assert(base.push('/').drop_last() =~= base);
}

/// A step of the flow fails exactly where it ends, sends exactly where it goes upstream, and
/// changes neither the model nor the provider; past the policy it was let through.
pub proof fn steps_end_or_send(f: ProxyFlow, next: ProxyFlow, a: ProxyAction, e: ApiError, p: Seq<char>)
    requires
        f.goes_on(next, a),
    ensures
        a is Fail <==> next.phase == ProxyPhase::Ended,
        a is Send <==> next.phase == ProxyPhase::Upstream,
        next.model == f.model && next.provider == f.provider,
        next.phase == ProxyPhase::Upstream || next.phase == ProxyPhase::Breaker ==> next.admitted,
        fails_as(a) == Some(e) <==> a == ProxyAction::Fail(e),
        asks_breaker_of(a, p) <==> (a matches ProxyAction::CheckBreaker { provider } && provider@ == p),
{
}

} // verus!
