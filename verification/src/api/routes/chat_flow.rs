//! A chat completion, from the request as it arrived to the answer.
//!
//! A `ChatFlow` knows how far a request has come. The driver does what the flow
//! asks for, tells it what came of that, and is told what to do next. Every gate
//! is passed in one order: attribution, experiment, policy, tools, session limit,
//! guardrail, routing, availability, tool support, response cache; only then is
//! a provider called.
//!
//! A request that is bound to an experiment is pinned to its variant's model, so
//! whatever would choose another stands aside: the downgrade of simple requests,
//! the load balancer, the session's pin, the response cache and the fallback
//! chain.

use crate::api::admin::experiments::Resolution;
use crate::api::attribution::{extracted, Attribution};
use crate::api::error::{ApiError, BindError, Unavailable};
use crate::api::headers::flagged;
use crate::api::routes::completions::{
    estimate_session_tokens, has_tools, hook_body, is_stream, named_model, request_has_tools,
    request_session, requested_model, session_estimate, session_of, should_skip_affinity,
    should_skip_logging, stray_tool_choice, validate_tool_choice_requires_tools, wants_stream,
    with_session_window, CompletionResult,
};
use crate::api::routes::gate::{
    experiment_bind_rejected, guard_model_substitution, is_denial, is_disabled, is_invalid,
    is_provider_error, open_breaker_text, pass_breaker, pass_policy, substitution_refusal,
    take_permit, GuardrailDecision, PolicyDecision,
};
use crate::api::routes::proxy::{notes_error, BreakerNote};
use crate::api::routes::usage::{log_plan, plan_log, project_of, LogPlan, Payer, StorageConfig};
use crate::json::Json;
use crate::ordered::lookup;
use crate::records::User;
use crate::text::opt_text;
use crate::text_map::{map_text, TextMap};
use axum::http::{HeaderMap, HeaderValue};
use vstd::prelude::*;

verus! {

/// The variant that a request is bound to.
#[derive(Debug, PartialEq, Eq)]
pub struct Binding {
    pub experiment_id: i64,
    pub variant: String,
    pub retain_content: bool,
    /// The model that stands for each requested one.
    pub overlay: TextMap,
}

/// How far a request has come: what it waits for.
#[derive(Debug, Clone, Copy, PartialEq, Eq, Structural)]
pub enum ChatPhase {
    Binding,
    Downgrade,
    Policy,
    Permit,
    Session,
    Guardrail,
    Hooks,
    Pool,
    Resolution,
    Pin,
    Availability,
    Tools,
    CacheRules,
    CacheLookup,
    Dispatch,
    Ended,
}

/// What the driver is to do.
#[derive(Debug, PartialEq, Eq)]
pub enum ChatAction {
    /// Bind the request to an experiment, where its header asks for that.
    Bind,
    /// Should a simple request be answered by a smaller model than this one?
    Downgrade { model: String },
    /// Tell the hooks of the request, and ask the policy engine about the model.
    CheckPolicy { model: String },
    /// Take one of so many concurrent requests.
    TakePermit { max: u32 },
    /// Count this many tokens against the session.
    CheckSession { session: String, tokens: u32 },
    /// Ask the guardrails about the request.
    CheckGuardrail,
    /// Run the hooks that may rewrite the body.
    RunHooks { body: Json },
    /// Does a pool of this name exist, and, unless the request is bound, which of
    /// its members is chosen?
    ChooseFromPool { model: String, bound: bool },
    /// What does this name resolve to?
    Resolve { model: String },
    /// Apply the session's pin, unless it is to be passed over, and keep the
    /// outcome as the new pin.
    ApplyPin { session: String, pass_over: bool, provider: String, model: String },
    /// Has an operator disabled the provider or the model?
    CheckAvailable { provider: String, model: String },
    /// Does the provider's adapter forward tools to the model?
    CheckTools { provider: String, model: String },
    /// May the user's answers of this model come from the cache, and may this
    /// one?
    CheckCacheRules { model: String },
    /// Look the request up in the cache.
    LookUpCache { model: String },
    /// Answer from the cache.
    ServeCached { provider: String, model: String },
    /// Call the provider, as a stream or for one answer. The answer is kept in
    /// the cache where the request was looked up there.
    Dispatch { provider: String, model: String, stream: bool, keep: bool },
    Fail(ApiError),
}

/// What does not change about a request.
#[derive(Debug, PartialEq, Eq)]
pub struct ChatRequest {
    /// As it arrived: hooks may rewrite the body, and attribution describes the
    /// caller's intent.
    pub body: Json,
    pub attribution: Attribution,
    pub requested_model: String,
    pub stream: bool,
    /// The caller asked to leave no prompt behind.
    pub no_log: bool,
    /// The caller opted out of the session's pin.
    pub pass_over_pin: bool,
    pub user_id: i64,
    pub session_window_secs: Option<i64>,
}

/// One chat completion.
#[derive(Debug, PartialEq, Eq)]
pub struct ChatFlow {
    pub request: ChatRequest,
    pub binding: Option<Binding>,
    pub plan: LogPlan,
    /// The model to be routed: the overlay's, or the one it was downgraded to.
    pub model: String,
    /// The body as hooks left it.
    pub body: Json,
    pub provider: String,
    /// The model of the provider that was resolved.
    pub canonical: String,
    /// The policy let the request through.
    pub admitted: bool,
    /// No guardrail blocked the request.
    pub screened: bool,
    /// Provider and model are in rotation.
    pub available: bool,
    /// The adapter forwards tools, or there are none.
    pub tools_forwarded: bool,
    /// The request was looked up in the cache.
    pub looked_up: bool,
    pub phase: ChatPhase,
}

/// How late a phase comes.
pub open spec fn rank(p: ChatPhase) -> int {
    match p {
        ChatPhase::Binding => 0,
        ChatPhase::Downgrade => 1,
        ChatPhase::Policy => 2,
        ChatPhase::Permit => 3,
        ChatPhase::Session => 4,
        ChatPhase::Guardrail => 5,
        ChatPhase::Hooks => 6,
        ChatPhase::Pool => 7,
        ChatPhase::Resolution => 8,
        ChatPhase::Pin => 9,
        ChatPhase::Availability => 10,
        ChatPhase::Tools => 11,
        ChatPhase::CacheRules => 12,
        ChatPhase::CacheLookup => 13,
        ChatPhase::Dispatch => 14,
        ChatPhase::Ended => 15,
    }
}

/// Whether an action fails the request.
pub open spec fn fails(a: ChatAction) -> bool {
    a is Fail
}

pub open spec fn error_of(a: ChatAction) -> ApiError {
    a->Fail_0
}

/// The model that a binding routes a requested one to: the overlay's, where it
/// names it.
pub open spec fn overlaid(b: Binding, requested: Seq<char>) -> Seq<char> {
    match lookup(b.overlay@, requested) {
        Some(m) => m,
        None => requested,
    }
}

pub open spec fn pool_is_bound(model: Seq<char>) -> Seq<char> {
    "'"@ + model
        + "' is a load balancer pool; experiments must pin a concrete provider/model"@
}

pub open spec fn pool_is_disabled(model: Seq<char>) -> Seq<char> {
    "every model in load balancer pool '"@ + model + "' has been disabled by an administrator"@
}

pub open spec fn no_tools_for(model: Seq<char>, provider: Seq<char>) -> Seq<char> {
    "`tools` is not supported for model '"@ + model + "' on provider '"@ + provider + "'"@
}

impl ChatFlow {
    pub open spec fn bound(&self) -> bool {
        self.binding is Some
    }

    /// Whether every gate before the current phase was passed.
    pub open spec fn wf(&self) -> bool {
        &&& self.request.body.wf()
        &&& self.body.wf()
        &&& rank(self.phase) >= rank(ChatPhase::Session) && self.phase != ChatPhase::Ended
            ==> self.admitted && !stray_tool_choice(self.request.body.model())
        &&& rank(self.phase) >= rank(ChatPhase::Hooks) && self.phase != ChatPhase::Ended
            ==> self.screened
        &&& rank(self.phase) >= rank(ChatPhase::Tools) && self.phase != ChatPhase::Ended
            ==> self.available
        &&& rank(self.phase) >= rank(ChatPhase::CacheRules) && self.phase != ChatPhase::Ended
            ==> self.tools_forwarded || !has_tools(self.body.model())
        &&& self.bound() ==> self.phase != ChatPhase::Downgrade && self.phase != ChatPhase::Pin
            && self.phase != ChatPhase::CacheRules && self.phase != ChatPhase::CacheLookup
            && !self.looked_up
        &&& rank(self.phase) < rank(ChatPhase::CacheLookup) ==> !self.looked_up
        &&& self.phase == ChatPhase::CacheLookup ==> self.looked_up
    }

    /// What no step changes, and when the flow ends.
    pub open spec fn goes_on(&self, next: ChatFlow, action: ChatAction) -> bool {
        &&& next.wf()
        &&& next.request == self.request
        &&& fails(action) || action is ServeCached ==> next.phase == ChatPhase::Ended
        &&& !fails(action) && !(action is ServeCached) ==> next.phase != ChatPhase::Ended && rank(
            next.phase,
        ) > rank(self.phase)
        &&& action is Dispatch <==> next.phase == ChatPhase::Dispatch
    }

    /// What no step after the binding changes.
    pub open spec fn keeps_binding(&self, next: ChatFlow) -> bool {
        &&& next.binding == self.binding
        &&& next.plan == self.plan
    }

    /// The request model that is stored: under a binding the name that the
    /// caller sent, on which a later comparison runs.
    pub open spec fn stored_model(&self) -> Seq<char> {
        if self.bound() {
            self.request.requested_model@
        } else {
            self.model@
        }
    }

    /// Begins with a request as it arrived.
    pub fn begin(
        user: &User,
        headers: &HeaderMap<HeaderValue>,
        body: Json,
        default_model: &str,
        storage: StorageConfig,
    ) -> (r: Result<(ChatFlow, ChatAction), ApiError>)
        requires
            body.wf(),
        ensures
            match extracted(body.model(), *headers) {
                Err(e) => r matches Err(err) && is_invalid(err, e),
                Ok(a) => {
                    &&& r matches Ok((flow, action))
                    &&& flow.wf()
                    &&& action is Bind
                    &&& flow.phase == ChatPhase::Binding
                    &&& flow.request.body == body
                    &&& flow.request.attribution@ == a
                    &&& flow.request.requested_model@ == named_model(body.model(), default_model@)
                    &&& flow.request.stream == wants_stream(body.model())
                    &&& flow.request.no_log == flagged(*headers, "x-no-log"@)
                    &&& flow.request.pass_over_pin == flagged(*headers, "x-session-lb"@)
                    &&& flow.request.user_id == user.id
                    &&& flow.request.session_window_secs == user.session_window_secs
                    &&& flow.binding is None
                },
            },
    {
        let attribution = match Attribution::extract(&body, headers) {
            Ok(a) => a,
            Err(e) => {
                return Err(ApiError::InvalidRequest(e.0));
            },
        };
        let no_log = should_skip_logging(headers);
        let requested = requested_model(&body, default_model);
        let request = ChatRequest {
            attribution,
            requested_model: requested.clone(),
            stream: is_stream(&body),
            no_log,
            pass_over_pin: should_skip_affinity(headers),
            user_id: user.id,
            session_window_secs: user.session_window_secs,
            body,
        };
        let flow = ChatFlow {
            request,
            binding: None,
            plan: plan_log(no_log, storage, false),
            model: requested,
            body: Json::Null,
            provider: String::new(),
            canonical: String::new(),
            admitted: false,
            screened: false,
            available: false,
            tools_forwarded: false,
            looked_up: false,
            phase: ChatPhase::Binding,
        };
        Ok((flow, ChatAction::Bind))
    }

    fn fail(&mut self, e: ApiError) -> (r: ChatAction)
        requires
            old(self).wf(),
        ensures
            old(self).goes_on(*final(self), r),
            *final(self) == (ChatFlow { phase: ChatPhase::Ended, ..*old(self) }),
            r == ChatAction::Fail(e),
    {
        self.phase = ChatPhase::Ended;
        ChatAction::Fail(e)
    }

    /// The request was bound, or asks for no experiment, or cannot be bound.
    pub fn on_bound(&mut self, bound: Result<Option<Binding>, BindError>, storage: StorageConfig) -> (r:
        ChatAction)
        requires
            old(self).wf(),
            old(self).phase == ChatPhase::Binding,
        ensures
            old(self).goes_on(*final(self), r),
            match bound {
                Err(e) => fails(r) && is_invalid(error_of(r), e.0@),
                Ok(None) => {
                    &&& final(self).binding is None
                    &&& final(self).phase == ChatPhase::Downgrade
                    &&& final(self).plan == log_plan(old(self).request.no_log, storage, false)
                    &&& r matches ChatAction::Downgrade { model } && model@
                        == old(self).request.requested_model@
                },
                Ok(Some(b)) => {
                    &&& final(self).binding == Some(b)
                    &&& final(self).phase == ChatPhase::Policy
                    &&& final(self).plan == log_plan(
                        old(self).request.no_log,
                        storage,
                        b.retain_content,
                    )
                    &&& final(self).model@ == overlaid(b, old(self).request.requested_model@)
                    &&& r matches ChatAction::CheckPolicy { model } && model@ == overlaid(
                        b,
                        old(self).request.requested_model@,
                    )
                },
            },
    {
        match bound {
            Err(e) => self.fail(experiment_bind_rejected(e)),
            Ok(None) => {
                self.binding = None;
                self.plan = plan_log(self.request.no_log, storage, false);
                self.phase = ChatPhase::Downgrade;
                ChatAction::Downgrade { model: self.request.requested_model.clone() }
            },
            Ok(Some(b)) => {
                self.plan = plan_log(self.request.no_log, storage, b.retain_content);
                self.model = match b.overlay.get(self.request.requested_model.as_str()) {
                    Some(m) => m.clone(),
                    None => self.request.requested_model.clone(),
                };
                self.binding = Some(b);
                self.phase = ChatPhase::Policy;
                ChatAction::CheckPolicy { model: self.model.clone() }
            },
        }
    }

    /// The model that a simple request is downgraded to, or the same.
    pub fn on_downgraded(&mut self, model: String) -> (r: ChatAction)
        requires
            old(self).wf(),
            old(self).phase == ChatPhase::Downgrade,
        ensures
            old(self).goes_on(*final(self), r),
            old(self).keeps_binding(*final(self)),
            final(self).model == model,
            final(self).phase == ChatPhase::Policy,
            r matches ChatAction::CheckPolicy { model: m } && m@ == model@,
    {
        self.model = model;
        self.phase = ChatPhase::Policy;
        ChatAction::CheckPolicy { model: self.model.clone() }
    }

    /// The request was let through: on to its tools and its session.
    fn admitted_next(&mut self) -> (r: ChatAction)
        requires
            old(self).wf(),
            rank(old(self).phase) < rank(ChatPhase::Session),
        ensures
            old(self).goes_on(*final(self), r),
            old(self).keeps_binding(*final(self)),
            final(self).model == old(self).model,
            !fails(r) ==> final(self).admitted,
            admitted_step(*old(self), *final(self), r),
    {
        self.admitted = true;
        match validate_tool_choice_requires_tools(&self.request.body) {
            Err(e) => {
                self.phase = ChatPhase::Ended;
                return ChatAction::Fail(e);
            },
            Ok(_) => {},
        }
        match request_session(&self.request.body) {
            Some(session) => {
                self.phase = ChatPhase::Session;
                let tokens: u32 = estimate_session_tokens(&self.request.body);
                ChatAction::CheckSession { session, tokens }
            },
            None => {
                self.phase = ChatPhase::Guardrail;
                ChatAction::CheckGuardrail
            },
        }
    }

    /// The policy engine decided.
    pub fn on_policy(&mut self, asked: Result<PolicyDecision, String>) -> (r: ChatAction)
        requires
            old(self).wf(),
            old(self).phase == ChatPhase::Policy,
        ensures
            old(self).goes_on(*final(self), r),
            old(self).keeps_binding(*final(self)),
            final(self).model == old(self).model,
            match asked {
                Err(_) => fails(r) && error_of(r) == ApiError::Internal,
                Ok(PolicyDecision::Deny { reason, status, .. }) => fails(r) && is_denial(
                    error_of(r),
                    reason@,
                    status,
                ),
                Ok(PolicyDecision::Allow { max_concurrent: Some(n) }) => {
                    &&& final(self).phase == ChatPhase::Permit
                    &&& r == (ChatAction::TakePermit { max: n })
                },
                Ok(PolicyDecision::Allow { max_concurrent: None }) => admitted_step(
                    *old(self),
                    *final(self),
                    r,
                ),
            },
    {
        match pass_policy(asked) {
            Err(e) => self.fail(e),
            Ok(Some(max)) => {
                self.phase = ChatPhase::Permit;
                ChatAction::TakePermit { max }
            },
            Ok(None) => self.admitted_next(),
        }
    }

    /// One of the concurrent requests was free, or not.
    pub fn on_permit(&mut self, acquired: bool) -> (r: ChatAction)
        requires
            old(self).wf(),
            old(self).phase == ChatPhase::Permit,
        ensures
            old(self).goes_on(*final(self), r),
            old(self).keeps_binding(*final(self)),
            final(self).model == old(self).model,
            !acquired ==> fails(r) && is_denial(
                error_of(r),
                "concurrent request limit exceeded"@,
                429,
            ),
            acquired ==> admitted_step(*old(self), *final(self), r),
    {
        match take_permit(acquired) {
            Err(e) => self.fail(e),
            Ok(_) => self.admitted_next(),
        }
    }

    /// The session is within its limit, or not.
    pub fn on_session(&mut self, within: bool) -> (r: ChatAction)
        requires
            old(self).wf(),
            old(self).phase == ChatPhase::Session,
        ensures
            old(self).goes_on(*final(self), r),
            old(self).keeps_binding(*final(self)),
            final(self).model == old(self).model,
            !within ==> fails(r) && is_denial(error_of(r), "session rate limit exceeded"@, 429),
            within ==> final(self).phase == ChatPhase::Guardrail && r is CheckGuardrail,
    {
        if within {
            self.phase = ChatPhase::Guardrail;
            ChatAction::CheckGuardrail
        } else {
            self.fail(
                ApiError::PolicyDenied {
                    reason: "session rate limit exceeded".to_owned(),
                    status: 429,
                },
            )
        }
    }

    /// The guardrails decided. Replacing a request is not supported and counts
    /// as allowing it.
    pub fn on_guardrail(&mut self, decision: GuardrailDecision) -> (r: ChatAction)
        requires
            old(self).wf(),
            old(self).phase == ChatPhase::Guardrail,
        ensures
            old(self).goes_on(*final(self), r),
            old(self).keeps_binding(*final(self)),
            final(self).model == old(self).model,
            match decision {
                GuardrailDecision::Block { reason } => fails(r) && is_denial(
                    error_of(r),
                    reason@,
                    400,
                ),
                _ => {
                    &&& final(self).phase == ChatPhase::Hooks
                    &&& r matches ChatAction::RunHooks { body } && body.model() == hook_body(
                        old(self).request.body.model(),
                        old(self).request.session_window_secs,
                    )
                },
            },
    {
        match decision {
            GuardrailDecision::Block { reason } => self.fail(
                ApiError::PolicyDenied { reason, status: 400 },
            ),
            _ => {
                self.screened = true;
                self.phase = ChatPhase::Hooks;
                let body = self.request.body.copied();
                ChatAction::RunHooks {
                    body: with_session_window(body, self.request.session_window_secs),
                }
            },
        }
    }

    /// The hooks handed the body back, perhaps rewritten.
    pub fn on_hooked(&mut self, body: Result<Json, String>) -> (r: ChatAction)
        requires
            old(self).wf(),
            old(self).phase == ChatPhase::Hooks,
            body matches Ok(b) ==> b.wf(),
        ensures
            old(self).goes_on(*final(self), r),
            old(self).keeps_binding(*final(self)),
            final(self).model == old(self).model,
            match body {
                Err(_) => fails(r) && error_of(r) == ApiError::Internal,
                Ok(b) => {
                    &&& final(self).body == b
                    &&& final(self).phase == ChatPhase::Pool
                    &&& r matches ChatAction::ChooseFromPool { model, bound } && model@
                        == old(self).model@ && bound == old(self).bound()
                },
            },
    {
        match body {
            Err(_) => self.fail(ApiError::Internal),
            Ok(b) => {
                self.body = b;
                self.phase = ChatPhase::Pool;
                ChatAction::ChooseFromPool {
                    model: self.model.clone(),
                    bound: self.binding.is_some(),
                }
            },
        }
    }

    /// Provider and model are known: on to the session's pin, which a bound
    /// request neither reads nor writes, or to the operator's gate.
    fn routed(&mut self, provider: String, model: String) -> (r: ChatAction)
        requires
            old(self).wf(),
            old(self).phase == ChatPhase::Pool || old(self).phase == ChatPhase::Resolution,
        ensures
            old(self).goes_on(*final(self), r),
            old(self).keeps_binding(*final(self)),
            final(self).model == old(self).model,
            final(self).body == old(self).body,
            routed_step(*old(self), *final(self), r, provider@, model@),
    {
        self.provider = provider;
        self.canonical = model;
        if self.binding.is_none() {
            if let Some(session) = request_session(&self.body) {
                self.phase = ChatPhase::Pin;
                return ChatAction::ApplyPin {
                    session,
                    pass_over: self.request.pass_over_pin,
                    provider: self.provider.clone(),
                    model: self.canonical.clone(),
                };
            }
        }
        self.phase = ChatPhase::Availability;
        ChatAction::CheckAvailable {
            provider: self.provider.clone(),
            model: self.canonical.clone(),
        }
    }

    /// Whether the name is a pool, and which member of it was chosen: none where
    /// every one is disabled. A bound request takes no member: a pool chooses per
    /// request, and an experiment must pin one model.
    pub fn on_pool(&mut self, is_pool: bool, choice: Option<(String, String)>) -> (r: ChatAction)
        requires
            old(self).wf(),
            old(self).phase == ChatPhase::Pool,
        ensures
            old(self).goes_on(*final(self), r),
            old(self).keeps_binding(*final(self)),
            final(self).model == old(self).model,
            final(self).body == old(self).body,
            match choice {
                Some((provider, model)) => if old(self).bound() {
                    unpooled_step(*old(self), *final(self), r, is_pool)
                } else {
                    routed_step(*old(self), *final(self), r, provider@, model@)
                },
                None => unpooled_step(*old(self), *final(self), r, is_pool),
            },
    {
        if self.binding.is_none() {
            if let Some((provider, model)) = choice {
                return self.routed(provider, model);
            }
        }
        if is_pool && self.binding.is_some() {
            let mut msg = "'".to_owned();
            msg.append(self.model.as_str());
            msg.append("' is a load balancer pool; experiments must pin a concrete provider/model");
            return self.fail(ApiError::InvalidRequest(msg));
        }
        if is_pool {
            let mut msg = "every model in load balancer pool '".to_owned();
            msg.append(self.model.as_str());
            msg.append("' has been disabled by an administrator");
            return self.fail(ApiError::Disabled(msg));
        }
        self.phase = ChatPhase::Resolution;
        ChatAction::Resolve { model: self.model.clone() }
    }

    /// The name resolved.
    pub fn on_resolved(&mut self, resolution: Resolution, strict: bool) -> (r: ChatAction)
        requires
            old(self).wf(),
            old(self).phase == ChatPhase::Resolution,
        ensures
            old(self).goes_on(*final(self), r),
            old(self).keeps_binding(*final(self)),
            final(self).model == old(self).model,
            final(self).body == old(self).body,
            resolution.substituted && strict ==> fails(r) && is_invalid(
                error_of(r),
                substitution_refusal(old(self).model@, resolution.model@),
            ),
            !(resolution.substituted && strict) ==> routed_step(
                *old(self),
                *final(self),
                r,
                resolution.provider@,
                resolution.model@,
            ),
    {
        match guard_model_substitution(self.model.as_str(), &resolution, strict) {
            Err(e) => self.fail(e),
            Ok(_) => self.routed(resolution.provider, resolution.model),
        }
    }

    /// The pair after the session's pin was applied.
    pub fn on_pinned(&mut self, provider: String, model: String) -> (r: ChatAction)
        requires
            old(self).wf(),
            old(self).phase == ChatPhase::Pin,
        ensures
            old(self).goes_on(*final(self), r),
            old(self).keeps_binding(*final(self)),
            final(self).model == old(self).model,
            final(self).body == old(self).body,
            final(self).provider == provider,
            final(self).canonical == model,
            final(self).phase == ChatPhase::Availability,
            r matches ChatAction::CheckAvailable { provider: p, model: m } && p@ == provider@ && m@
                == model@,
    {
        self.provider = provider;
        self.canonical = model;
        self.phase = ChatPhase::Availability;
        ChatAction::CheckAvailable {
            provider: self.provider.clone(),
            model: self.canonical.clone(),
        }
    }

    /// Past the gates: on to the cache, from which a bound request is never
    /// served, since a cached answer says nothing about the pinned model.
    fn gates_passed(&mut self) -> (r: ChatAction)
        requires
            old(self).wf(),
            rank(old(self).phase) < rank(ChatPhase::CacheRules),
            old(self).admitted,
            !stray_tool_choice(old(self).request.body.model()),
            old(self).screened,
            old(self).available,
            old(self).tools_forwarded || !has_tools(old(self).body.model()),
            !old(self).looked_up,
        ensures
            old(self).goes_on(*final(self), r),
            old(self).keeps_binding(*final(self)),
            final(self).model == old(self).model,
            final(self).body == old(self).body,
            final(self).provider == old(self).provider,
            final(self).canonical == old(self).canonical,
            gates_passed_step(*old(self), *final(self), r),
    {
        if self.binding.is_some() {
            return self.dispatch();
        }
        self.phase = ChatPhase::CacheRules;
        ChatAction::CheckCacheRules { model: self.canonical.clone() }
    }

    fn dispatch(&mut self) -> (r: ChatAction)
        requires
            old(self).wf(),
            rank(old(self).phase) < rank(ChatPhase::Dispatch),
            old(self).admitted,
            !stray_tool_choice(old(self).request.body.model()),
            old(self).screened,
            old(self).available,
            old(self).tools_forwarded || !has_tools(old(self).body.model()),
        ensures
            old(self).goes_on(*final(self), r),
            old(self).keeps_binding(*final(self)),
            final(self).model == old(self).model,
            final(self).body == old(self).body,
            final(self).provider == old(self).provider,
            final(self).canonical == old(self).canonical,
            final(self).looked_up == old(self).looked_up,
            dispatches(*old(self), r, old(self).looked_up),
    {
        self.phase = ChatPhase::Dispatch;
        ChatAction::Dispatch {
            provider: self.provider.clone(),
            model: self.canonical.clone(),
            stream: self.request.stream,
            keep: self.looked_up,
        }
    }

    /// The operator's gate: a disabled model or provider is never called, and
    /// the caller is told so.
    pub fn on_available(&mut self, disabled: Option<Unavailable>) -> (r: ChatAction)
        requires
            old(self).wf(),
            old(self).phase == ChatPhase::Availability,
        ensures
            old(self).goes_on(*final(self), r),
            old(self).keeps_binding(*final(self)),
            final(self).model == old(self).model,
            final(self).body == old(self).body,
            final(self).provider == old(self).provider,
            final(self).canonical == old(self).canonical,
            match disabled {
                Some(u) => fails(r) && is_disabled(error_of(r), u.0@),
                None => if has_tools(old(self).body.model()) {
                    &&& final(self).phase == ChatPhase::Tools
                    &&& r matches ChatAction::CheckTools { provider, model } && provider@
                        == old(self).provider@ && model@ == old(self).canonical@
                } else {
                    gates_passed_step(*old(self), *final(self), r)
                },
            },
    {
        match disabled {
            Some(u) => self.fail(ApiError::Disabled(u.0)),
            None => {
                self.available = true;
                if request_has_tools(&self.body) {
                    self.phase = ChatPhase::Tools;
                    ChatAction::CheckTools {
                        provider: self.provider.clone(),
                        model: self.canonical.clone(),
                    }
                } else {
                    self.gates_passed()
                }
            },
        }
    }

    /// Whether the adapter forwards tools. Dropping them silently would have the
    /// model answer in prose.
    pub fn on_tools(&mut self, forwards: Result<bool, String>) -> (r: ChatAction)
        requires
            old(self).wf(),
            old(self).phase == ChatPhase::Tools,
        ensures
            old(self).goes_on(*final(self), r),
            old(self).keeps_binding(*final(self)),
            final(self).model == old(self).model,
            final(self).body == old(self).body,
            final(self).provider == old(self).provider,
            final(self).canonical == old(self).canonical,
            match forwards {
                Err(e) => fails(r) && is_provider_error(error_of(r), e@),
                Ok(false) => fails(r) && is_invalid(
                    error_of(r),
                    no_tools_for(old(self).canonical@, old(self).provider@),
                ),
                Ok(true) => gates_passed_step(*old(self), *final(self), r),
            },
    {
        match forwards {
            Err(e) => self.fail(ApiError::ProviderError(e)),
            Ok(true) => {
                self.tools_forwarded = true;
                self.gates_passed()
            },
            Ok(false) => {
                let mut msg = "`tools` is not supported for model '".to_owned();
                msg.append(self.canonical.as_str());
                msg.append("' on provider '");
                msg.append(self.provider.as_str());
                msg.append("'");
                self.fail(ApiError::InvalidRequest(msg))
            },
        }
    }

    /// Whether the cache is on for the user and the model, and whether this
    /// request may be served from it.
    pub fn on_cache_rules(&mut self, enabled: bool, eligible: bool) -> (r: ChatAction)
        requires
            old(self).wf(),
            old(self).phase == ChatPhase::CacheRules,
        ensures
            old(self).goes_on(*final(self), r),
            old(self).keeps_binding(*final(self)),
            final(self).model == old(self).model,
            final(self).body == old(self).body,
            final(self).provider == old(self).provider,
            final(self).canonical == old(self).canonical,
            enabled && eligible ==> {
                &&& final(self).phase == ChatPhase::CacheLookup
                &&& r matches ChatAction::LookUpCache { model } && model@ == old(self).canonical@
            },
            !(enabled && eligible) ==> !final(self).looked_up && dispatches(*old(self), r, false),
    {
        if enabled && eligible {
            self.looked_up = true;
            self.phase = ChatPhase::CacheLookup;
            ChatAction::LookUpCache { model: self.canonical.clone() }
        } else {
            self.dispatch()
        }
    }

    /// Whether the cache holds an answer.
    pub fn on_cached(&mut self, hit: bool) -> (r: ChatAction)
        requires
            old(self).wf(),
            old(self).phase == ChatPhase::CacheLookup,
        ensures
            old(self).goes_on(*final(self), r),
            old(self).keeps_binding(*final(self)),
            final(self).model == old(self).model,
            final(self).body == old(self).body,
            final(self).provider == old(self).provider,
            final(self).canonical == old(self).canonical,
            final(self).looked_up == old(self).looked_up,
            hit ==> (r matches ChatAction::ServeCached { provider, model } && provider@
                == old(self).provider@ && model@ == old(self).canonical@),
            !hit ==> dispatches(*old(self), r, true),
    {
        if hit {
            self.phase = ChatPhase::Ended;
            ChatAction::ServeCached {
                provider: self.provider.clone(),
                model: self.canonical.clone(),
            }
        } else {
            self.dispatch()
        }
    }

    /// The request model that is stored.
    pub fn logged_model(&self) -> (r: String)
        ensures
            r@ == self.stored_model(),
    {
        if self.binding.is_some() {
            self.request.requested_model.clone()
        } else {
            self.model.clone()
        }
    }

    /// Who the request is charged to, and under which variant.
    pub fn payer(&self, user: &User) -> (r: Payer)
        ensures
            r.user_id == user.id,
            r.api_key_id == user.api_key_id,
            opt_text(r.project) == project_of(self.request.attribution, user.api_key_project),
            opt_text(r.correlation_id) == self.request.attribution@.correlation_id,
            r.tags@ == map_text(self.request.attribution@.tags),
            match self.binding {
                Some(b) => r.experiment_id == Some(b.experiment_id) && opt_text(
                    r.experiment_variant,
                ) == Some(b.variant@),
                None => r.experiment_id is None && r.experiment_variant is None,
            },
    {
        let mut payer = Payer::new(user, &self.request.attribution);
        if let Some(b) = &self.binding {
            payer.experiment_id = Some(b.experiment_id);
            payer.experiment_variant = Some(b.variant.clone());
        }
        payer
    }
}

/// The step after a request was let through: its tools are checked, then its
/// session, then the guardrails are asked.
pub open spec fn admitted_step(before: ChatFlow, after: ChatFlow, action: ChatAction) -> bool {
    let body = before.request.body.model();
    if stray_tool_choice(body) {
        fails(action) && is_invalid(
            error_of(action),
            "`tool_choice` requires a non-empty `tools` array"@,
        )
    } else {
        match session_of(body) {
            Some(s) => {
                &&& after.phase == ChatPhase::Session
                &&& action matches ChatAction::CheckSession { session, tokens } && session@ == s
                    && tokens == session_estimate(body)
            },
            None => after.phase == ChatPhase::Guardrail && action is CheckGuardrail,
        }
    }
}

/// The step where no member of a pool was chosen.
pub open spec fn unpooled_step(
    before: ChatFlow,
    after: ChatFlow,
    action: ChatAction,
    is_pool: bool,
) -> bool {
    if is_pool && before.bound() {
        fails(action) && is_invalid(error_of(action), pool_is_bound(before.model@))
    } else if is_pool {
        fails(action) && is_disabled(error_of(action), pool_is_disabled(before.model@))
    } else {
        &&& after.phase == ChatPhase::Resolution
        &&& action matches ChatAction::Resolve { model } && model@ == before.model@
    }
}

/// The step after provider and model are known.
pub open spec fn routed_step(
    before: ChatFlow,
    after: ChatFlow,
    action: ChatAction,
    provider: Seq<char>,
    model: Seq<char>,
) -> bool {
    &&& after.provider@ == provider
    &&& after.canonical@ == model
    &&& if !before.bound() && session_of(before.body.model()) is Some {
        &&& after.phase == ChatPhase::Pin
        &&& action matches ChatAction::ApplyPin { session, pass_over, provider: p, model: m }
            && Some(session@) == session_of(before.body.model()) && pass_over
            == before.request.pass_over_pin && p@ == provider && m@ == model
    } else {
        &&& after.phase == ChatPhase::Availability
        &&& action matches ChatAction::CheckAvailable { provider: p, model: m } && p@ == provider
            && m@ == model
    }
}

/// Whether the action calls the resolved pair.
pub open spec fn dispatches(flow: ChatFlow, action: ChatAction, keep: bool) -> bool {
    action matches ChatAction::Dispatch { provider, model, stream, keep: k } && provider@
        == flow.provider@ && model@ == flow.canonical@ && stream == flow.request.stream && k == keep
}

/// The step after the last gate: a bound request is dispatched, any other first
/// asks for the cache.
pub open spec fn gates_passed_step(before: ChatFlow, after: ChatFlow, action: ChatAction) -> bool {
    if before.bound() {
        dispatches(before, action, false)
    } else {
        &&& after.phase == ChatPhase::CacheRules
        &&& action matches ChatAction::CheckCacheRules { model } && model@ == before.canonical@
    }
}

// ---------------------------------------------------------------------------
// After the provider
// ---------------------------------------------------------------------------

/// What the guardrails make of an answer: it is blocked, its text replaced, or
/// it goes out as it is.
pub fn guard_response(decision: GuardrailDecision, result: CompletionResult) -> (r: Result<
    CompletionResult,
    ApiError,
>)
    ensures
        match decision {
            GuardrailDecision::Allow => r == Ok::<CompletionResult, ApiError>(result),
            GuardrailDecision::Block { reason } => r matches Err(e) && is_denial(e, reason@, 400),
            GuardrailDecision::Replace { content } => r == Ok::<CompletionResult, ApiError>(
                CompletionResult { content, ..result },
            ),
        },
{
    match decision {
        GuardrailDecision::Allow => Ok(result),
        GuardrailDecision::Block { reason } => Err(ApiError::PolicyDenied { reason, status: 400 }),
        GuardrailDecision::Replace { content } => {
            let mut out = result;
            out.content = content;
            Ok(out)
        },
    }
}

/// Opening a stream: the breaker must be closed, an adapter there, and the
/// provider willing. There is no fallback. What is noted of the provider is what
/// it made of the call, where it was called.
pub fn open_stream(
    provider: &str,
    breaker_open: bool,
    adapter: Result<(), String>,
    opened: Result<(), String>,
) -> (r: (Option<BreakerNote>, Result<(), ApiError>))
    ensures
        if breaker_open {
            r.0 is None && (r.1 matches Err(e) && is_provider_error(
                e,
                open_breaker_text(provider@),
            ))
        } else {
            match (adapter, opened) {
                (Err(msg), _) => r.0 is None && (r.1 matches Err(e) && is_provider_error(e, msg@)),
                (Ok(_), Err(msg)) => (r.0 matches Some(note) && notes_error(note, msg@)) && (
                r.1 matches Err(e) && is_provider_error(e, msg@)),
                (Ok(_), Ok(_)) => (r.0 matches Some(note) && note is Success) && r.1 is Ok,
            }
        },
{
    match pass_breaker(provider, breaker_open) {
        Err(e) => {
            return (None, Err(e));
        },
        Ok(_) => {},
    }
    match adapter {
        Err(msg) => (None, Err(ApiError::ProviderError(msg))),
        Ok(_) => match opened {
            Err(msg) => (
                Some(BreakerNote::Erred(msg.clone())),
                Err(ApiError::ProviderError(msg)),
            ),
            Ok(_) => (Some(BreakerNote::Success), Ok(())),
        },
    }
}

// ---------------------------------------------------------------------------
// Laws
// ---------------------------------------------------------------------------

/// No provider is called for a request that the policy did not let through, a
/// guardrail blocked, or an operator's disabling forbids, nor with tools that
/// its adapter would drop.
pub proof fn dispatch_is_behind_every_gate(flow: ChatFlow)
    requires
        flow.wf(),
        flow.phase == ChatPhase::Dispatch,
    ensures
        flow.admitted,
        flow.screened,
        flow.available,
        flow.tools_forwarded || !has_tools(flow.body.model()),
        !stray_tool_choice(flow.request.body.model()),
{
}

/// A bound request is never downgraded, pinned to a session or looked up in the
/// cache.
pub proof fn bound_requests_stay_pinned(flow: ChatFlow)
    requires
        flow.wf(),
        flow.bound(),
    ensures
        flow.phase != ChatPhase::Downgrade,
        flow.phase != ChatPhase::Pin,
        flow.phase != ChatPhase::CacheRules,
        flow.phase != ChatPhase::CacheLookup,
        !flow.looked_up,
{
}

/// A flow comes to its end: every step goes forward.
pub proof fn flows_go_forward(before: ChatFlow, after: ChatFlow, action: ChatAction)
    requires
        before.goes_on(after, action),
        before.phase != ChatPhase::Ended,
    ensures
        rank(after.phase) > rank(before.phase),
{
}

/// A request that was let through is refused for a stray tool choice; otherwise it is counted
/// against its session where it names one, and goes to the guardrails where it names none.
pub proof fn admitted_requests_are_counted(before: ChatFlow, after: ChatFlow, a: ChatAction, s: Seq<char>)
    requires
        admitted_step(before, after, a),
    ensures
        stray_tool_choice(before.request.body.model()) ==> (a matches ChatAction::Fail(
            ApiError::InvalidRequest(m),
        ) && m@ == "`tool_choice` requires a non-empty `tools` array"@),
        !stray_tool_choice(before.request.body.model()) && session_of(before.request.body.model()) == Some(
            s,
        ) ==> (a matches ChatAction::CheckSession { session, tokens } && session@ == s && tokens
            == session_estimate(before.request.body.model()) && after.phase == ChatPhase::Session),
        !stray_tool_choice(before.request.body.model()) && session_of(before.request.body.model()) is None
            ==> a is CheckGuardrail && after.phase == ChatPhase::Guardrail,
{
}

/// A route that was found is the provider and the model that were found, each in its place;
/// only a session of a request that is not bound may pin it to another.
pub proof fn routes_are_those_found(before: ChatFlow, after: ChatFlow, a: ChatAction, provider: Seq<char>, model: Seq<char>)
    requires
        routed_step(before, after, a, provider, model),
    ensures
        after.provider@ == provider && after.canonical@ == model,
        a matches ChatAction::CheckAvailable { provider: p, model: m } ==> p@ == provider && m@ == model,
        a matches ChatAction::ApplyPin { session, pass_over, provider: p, model: m } ==> p@ == provider
            && m@ == model && Some(session@) == session_of(before.body.model()) && pass_over
            == before.request.pass_over_pin && before.binding is None,
        a is ApplyPin || a is CheckAvailable,
        before.binding is Some || session_of(before.body.model()) is None ==> a is CheckAvailable,
        before.binding is None && session_of(before.body.model()) is Some ==> a is ApplyPin,
{
}

/// The name of a pool is never resolved as a model: an experiment may not name one, and one
/// without a member in rotation is refused.
pub proof fn pools_are_no_models(before: ChatFlow, after: ChatFlow, a: ChatAction, is_pool: bool)
    requires
        unpooled_step(before, after, a, is_pool),
    ensures
        !is_pool ==> (a matches ChatAction::Resolve { model } && model@ == before.model@),
        is_pool && before.binding is Some ==> (a matches ChatAction::Fail(ApiError::InvalidRequest(m)) && m@
            == "'"@ + before.model@
            + "' is a load balancer pool; experiments must pin a concrete provider/model"@),
        is_pool && before.binding is None ==> (a matches ChatAction::Fail(ApiError::Disabled(m)) && m@
            == "every model in load balancer pool '"@ + before.model@
            + "' has been disabled by an administrator"@),
{
}

/// A provider is called for the model that was resolved, the way the caller asked to be
/// answered; a bound request passes the cache by, any other is asked about first.
pub proof fn providers_are_called_as_resolved(flow: ChatFlow, after: ChatFlow, a: ChatAction, keep: bool)
    ensures
        dispatches(flow, a, keep) <==> (a matches ChatAction::Dispatch { provider, model, stream, keep: k }
            && provider@ == flow.provider@ && model@ == flow.canonical@ && stream == flow.request.stream && k
            == keep),
        gates_passed_step(flow, after, a) && flow.binding is Some ==> (
        a matches ChatAction::Dispatch { provider, model, stream, keep: k } && provider@ == flow.provider@
            && model@ == flow.canonical@ && !k),
        gates_passed_step(flow, after, a) && flow.binding is None ==> (
        a matches ChatAction::CheckCacheRules { model } && model@ == flow.canonical@ && after.phase
            == ChatPhase::CacheRules),
{
}

/// The overlay of an experiment replaces the models it names and no others; a bound request
/// is logged under the name that was asked for, any other under the one that was routed.
pub proof fn overlays_replace_what_they_name(b: Binding, requested: Seq<char>, m: Seq<char>, flow: ChatFlow, p: Seq<char>)
    ensures
        lookup(b.overlay@, requested) == Some(m) ==> overlaid(b, requested) == m,
        lookup(b.overlay@, requested) is None ==> overlaid(b, requested) == requested,
        flow.binding is Some ==> flow.stored_model() == flow.request.requested_model@,
        flow.binding is None ==> flow.stored_model() == flow.model@,
        no_tools_for(m, p) == "`tools` is not supported for model '"@ + m + "' on provider '"@ + p + "'"@,
{
}

/// A step never rewrites what the caller asked for, and where it keeps the binding it keeps
/// what is logged; an answer from the cache and a failure end the flow.
pub proof fn steps_keep_the_request(f: ChatFlow, next: ChatFlow, a: ChatAction)
    requires
        f.goes_on(next, a),
    ensures
        next.request == f.request,
        a is Fail || a is ServeCached <==> next.phase == ChatPhase::Ended,
        a is Dispatch <==> next.phase == ChatPhase::Dispatch,
        f.keeps_binding(next) ==> next.binding == f.binding && next.plan == f.plan,
        next.phase == ChatPhase::Dispatch ==> next.admitted && next.screened && next.available,
{
}

} // verus!
