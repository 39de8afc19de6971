//! What is stored of a call: the row of the prompt log, which is optional, and
//! the row of the cost ledger, which is not.

use crate::api::attribution::Attribution;
use crate::callbacks::CallbackEvent;
use crate::json::{json_of_text, Json, JsonModel};
use crate::records::{NewCostLedgerEntry, NewPrompt, Usd, User};
use crate::text::{copy_text, i64_text, int_text, opt_text};
use crate::text_map::map_text;
use vstd::prelude::*;

verus! {

/// Who a call is charged to.
#[derive(Debug, PartialEq, Eq)]
pub struct Payer {
    pub user_id: i64,
    pub api_key_id: Option<i64>,
    /// The project of the request, or else of the key.
    pub project: Option<String>,
    pub correlation_id: Option<String>,
    /// Tags, as JSON text.
    pub tags: String,
    pub experiment_id: Option<i64>,
    pub experiment_variant: Option<String>,
}

/// The project that a request's spend belongs to: its own, or else the key's.
pub open spec fn project_of(a: Attribution, key_project: Option<String>) -> Option<Seq<char>> {
    if a.project is Some {
        opt_text(a.project)
    } else {
        opt_text(key_project)
    }
}

impl Payer {
    /// Whether this is who a request of `user` with attribution `a` is charged
    /// to, outside any experiment.
    pub open spec fn pays_for(&self, user: User, a: Attribution) -> bool {
        &&& self.user_id == user.id
        &&& self.api_key_id == user.api_key_id
        &&& opt_text(self.project) == project_of(a, user.api_key_project)
        &&& opt_text(self.correlation_id) == a@.correlation_id
        &&& self.tags@ == map_text(a@.tags)
        &&& self.experiment_id is None
        &&& self.experiment_variant is None
    }

    pub fn new(user: &User, attribution: &Attribution) -> (r: Payer)
        ensures
            r.pays_for(*user, *attribution),
    {
        Payer {
            user_id: user.id,
            api_key_id: user.api_key_id,
            project: attribution.project_or(copy_text(&user.api_key_project)),
            correlation_id: copy_text(&attribution.correlation_id),
            tags: attribution.tags_json(),
            experiment_id: None,
            experiment_variant: None,
        }
    }

    pub fn copied(&self) -> (r: Payer)
        ensures
            r == *self,
    {
        Payer {
            user_id: self.user_id,
            api_key_id: self.api_key_id,
            project: copy_text(&self.project),
            correlation_id: copy_text(&self.correlation_id),
            tags: self.tags.clone(),
            experiment_id: self.experiment_id,
            experiment_variant: copy_text(&self.experiment_variant),
        }
    }
}

/// One call, as it is charged.
#[derive(Debug, PartialEq, Eq)]
pub struct Call {
    pub payer: Payer,
    /// The name that the caller sent.
    pub request_model: String,
    /// The model that answered.
    pub model: String,
    /// The provider that answered.
    pub provider: String,
    pub messages: String,
    pub response: Option<String>,
    pub finish_reason: Option<String>,
    pub prompt_tokens: i64,
    pub completion_tokens: i64,
    pub cache_read_tokens: i64,
    pub cache_write_tokens: i64,
    pub tokens_estimated: bool,
    pub cost_usd: Usd,
    pub latency_ms: Option<i64>,
    pub ttft_ms: Option<i64>,
    pub attempts: Option<i64>,
}

/// Whether `p` is the row of the prompt log for `c`.
pub open spec fn is_prompt_of(p: NewPrompt, c: Call) -> bool {
    &&& p.user_id == c.payer.user_id
    &&& p.session_id is None
    &&& p.request_model@ == c.request_model@
    &&& p.routed_model@ == c.model@
    &&& p.provider@ == c.provider@
    &&& p.messages@ == c.messages@
    &&& opt_text(p.response) == opt_text(c.response)
    &&& opt_text(p.finish_reason) == opt_text(c.finish_reason)
    &&& p.prompt_tokens == c.prompt_tokens
    &&& p.completion_tokens == c.completion_tokens
    &&& p.cache_read_tokens == c.cache_read_tokens
    &&& p.cache_write_tokens == c.cache_write_tokens
    &&& p.cost_usd == c.cost_usd
    &&& p.latency_ms == c.latency_ms
    &&& p.ttft_ms == c.ttft_ms
    &&& p.attempts == c.attempts
    &&& p.tags@ == "[]"@
    &&& opt_text(p.project) == opt_text(c.payer.project)
    &&& opt_text(p.attribution_correlation_id) == opt_text(c.payer.correlation_id)
    &&& p.attribution_tags@ == c.payer.tags@
    &&& p.experiment_id == c.payer.experiment_id
    &&& opt_text(p.experiment_variant) == opt_text(c.payer.experiment_variant)
}

/// Whether `e` is the row of the cost ledger for `c`.
pub open spec fn is_ledger_of(e: NewCostLedgerEntry, c: Call, prompt_id: Option<i64>) -> bool {
    &&& e.user_id == c.payer.user_id
    &&& e.prompt_id == prompt_id
    &&& e.model@ == c.model@
    &&& e.provider@ == c.provider@
    &&& opt_text(e.project) == opt_text(c.payer.project)
    &&& e.tokens_in == c.prompt_tokens
    &&& e.tokens_out == c.completion_tokens
    &&& e.cost_usd == c.cost_usd
    &&& e.api_key_id == c.payer.api_key_id
    &&& opt_text(e.attribution_correlation_id) == opt_text(c.payer.correlation_id)
    &&& e.attribution_tags@ == c.payer.tags@
    &&& e.experiment_id == c.payer.experiment_id
    &&& opt_text(e.experiment_variant) == opt_text(c.payer.experiment_variant)
    &&& e.tokens_estimated == c.tokens_estimated
}

impl Call {
    /// The row of the prompt log.
    pub fn prompt_row(&self) -> (r: NewPrompt)
        ensures
            is_prompt_of(r, *self),
    {
        NewPrompt {
            user_id: self.payer.user_id,
            session_id: None,
            request_model: self.request_model.clone(),
            routed_model: self.model.clone(),
            provider: self.provider.clone(),
            messages: self.messages.clone(),
            response: copy_text(&self.response),
            finish_reason: copy_text(&self.finish_reason),
            prompt_tokens: self.prompt_tokens,
            completion_tokens: self.completion_tokens,
            cache_read_tokens: self.cache_read_tokens,
            cache_write_tokens: self.cache_write_tokens,
            cost_usd: self.cost_usd,
            latency_ms: self.latency_ms,
            ttft_ms: self.ttft_ms,
            attempts: self.attempts,
            tags: "[]".to_owned(),
            project: copy_text(&self.payer.project),
            attribution_correlation_id: copy_text(&self.payer.correlation_id),
            attribution_tags: self.payer.tags.clone(),
            experiment_id: self.payer.experiment_id,
            experiment_variant: copy_text(&self.payer.experiment_variant),
        }
    }

    /// The row of the cost ledger, tied to the prompt where one was stored.
    pub fn ledger_row(&self, prompt_id: Option<i64>) -> (r: NewCostLedgerEntry)
        ensures
            is_ledger_of(r, *self, prompt_id),
    {
        NewCostLedgerEntry {
            user_id: self.payer.user_id,
            prompt_id,
            model: self.model.clone(),
            provider: self.provider.clone(),
            project: copy_text(&self.payer.project),
            tokens_in: self.prompt_tokens,
            tokens_out: self.completion_tokens,
            cost_usd: self.cost_usd,
            api_key_id: self.payer.api_key_id,
            attribution_correlation_id: copy_text(&self.payer.correlation_id),
            attribution_tags: self.payer.tags.clone(),
            experiment_id: self.payer.experiment_id,
            experiment_variant: copy_text(&self.payer.experiment_variant),
            tokens_estimated: self.tokens_estimated,
        }
    }
}

/// How a ledger row counts.
#[derive(Debug, PartialEq, Eq)]
pub enum LedgerWrite {
    /// The cost was spent.
    Spend(NewCostLedgerEntry),
    /// Nothing was spent: the row's cost is what a hit in the response cache
    /// saved.
    CacheHit(NewCostLedgerEntry),
}

// ---------------------------------------------------------------------------
// Whether a prompt is stored
// ---------------------------------------------------------------------------

/// The operator's storage policy.
#[derive(Debug, Clone, Copy, PartialEq, Eq, Structural)]
pub struct StorageConfig {
    /// Whether prompts are stored at all.
    pub store_prompts: bool,
    /// Whether their content is stored.
    pub store_prompt_content: bool,
}

/// What is stored of a request, and what leaves the router.
#[derive(Debug, Clone, Copy, PartialEq, Eq, Structural)]
pub struct LogPlan {
    /// Write a row of the prompt log.
    pub write_prompt: bool,
    /// Send nothing to callbacks.
    pub skip_callbacks: bool,
    /// The policy under which the prompt row is redacted.
    pub storage: StorageConfig,
}

/// The plan for a request. A caller that asks for no log gets none. The operator
/// may turn the prompt log off; an experiment that retains content turns it, and
/// the storing of content, back on for its own requests, but does not widen what
/// leaves the router.
pub open spec fn log_plan(no_log: bool, storage: StorageConfig, retain_content: bool) -> LogPlan {
    LogPlan {
        write_prompt: !no_log && (storage.store_prompts || retain_content),
        skip_callbacks: no_log || !storage.store_prompts,
        storage: if retain_content {
            StorageConfig { store_prompts: true, store_prompt_content: true }
        } else {
            storage
        },
    }
}

pub fn plan_log(no_log: bool, storage: StorageConfig, retain_content: bool) -> (r: LogPlan)
    ensures
        r == log_plan(no_log, storage, retain_content),
{
    LogPlan {
        write_prompt: !no_log && (storage.store_prompts || retain_content),
        skip_callbacks: no_log || !storage.store_prompts,
        storage: if retain_content {
            StorageConfig { store_prompts: true, store_prompt_content: true }
        } else {
            storage
        },
    }
}

/// What became of the prompt row.
#[derive(Debug, Clone, Copy, PartialEq, Eq, Structural)]
pub enum PromptOutcome {
    /// None was to be written.
    Skipped,
    Stored(i64),
    /// Writing it failed.
    Failed,
}

/// The prompt that the ledger row names, if one was stored. There is a ledger row
/// whatever became of the prompt row, since budgets are counted on it.
pub open spec fn ledger_prompt(prompt: PromptOutcome) -> Option<i64> {
    match prompt {
        PromptOutcome::Stored(id) => Some(id),
        _ => None,
    }
}

/// The row of the cost ledger that a completed call is charged with.
pub fn spend_row(call: &Call, prompt: PromptOutcome) -> (r: LedgerWrite)
    ensures
        r matches LedgerWrite::Spend(e) && is_ledger_of(e, *call, ledger_prompt(prompt)),
{
    LedgerWrite::Spend(call.ledger_row(ledger_after(prompt)))
}

/// The prompt that the ledger row of a call names.
pub fn ledger_after(prompt: PromptOutcome) -> (r: Option<i64>)
    ensures
        r == ledger_prompt(prompt),
{
    match prompt {
        PromptOutcome::Stored(id) => Some(id),
        _ => None,
    }
}

// ---------------------------------------------------------------------------
// What leaves the router
// ---------------------------------------------------------------------------

/// The messages that a stored text holds; null where it does not hold JSON.
pub open spec fn told_messages(messages: Seq<char>) -> JsonModel {
    match json_of_text(messages) {
        Some(m) => m,
        None => JsonModel::Null,
    }
}

/// Whether `e` tells of the call whose prompt was stored under `prompt_id`.
pub open spec fn is_event_of(e: CallbackEvent, c: Call, prompt_id: i64) -> bool {
    &&& e.trace_id@ == int_text(prompt_id as int)
    &&& e.user_id == c.payer.user_id
    &&& e.model@ == c.model@
    &&& e.provider@ == c.provider@
    &&& e.input.wf()
    &&& e.input.model() == told_messages(c.messages@)
    &&& e.output@ == match c.response {
        Some(t) => t@,
        None => Seq::empty(),
    }
    &&& e.prompt_tokens == c.prompt_tokens
    &&& e.completion_tokens == c.completion_tokens
    &&& e.cost_usd == c.cost_usd
    &&& e.latency_ms == match c.latency_ms {
        Some(ms) => ms,
        None => 0,
    }
}

/// What callbacks are told of a call: nothing unless its prompt was stored, and
/// nothing where the plan lets nothing out. A prompt that was stored only because
/// an experiment retains it does not change that.
pub fn callback_event(plan: &LogPlan, call: &Call, prompt: PromptOutcome) -> (r: Option<
    CallbackEvent,
>)
    requires
        0 <= call.prompt_tokens <= u32::MAX,
        0 <= call.completion_tokens <= u32::MAX,
    ensures
        match prompt {
            PromptOutcome::Stored(id) => if plan.skip_callbacks {
                r is None
            } else {
                r matches Some(e) && is_event_of(e, *call, id)
            },
            _ => r is None,
        },
{
    let id: i64 = match prompt {
        PromptOutcome::Stored(id) => id,
        _ => {
            return None;
        },
    };
    if plan.skip_callbacks {
        return None;
    }
    let input = match Json::parse(call.messages.as_str()) {
        Some(v) => v,
        None => Json::Null,
    };
    let output = match &call.response {
        Some(t) => t.clone(),
        None => String::new(),
    };
    Some(
        CallbackEvent {
            trace_id: i64_text(id),
            user_id: call.payer.user_id,
            model: call.model.clone(),
            provider: call.provider.clone(),
            input,
            output,
            prompt_tokens: call.prompt_tokens as u32,
            completion_tokens: call.completion_tokens as u32,
            cost_usd: call.cost_usd,
            latency_ms: match call.latency_ms {
                Some(ms) => ms,
                None => 0,
            },
        },
    )
}

// ---------------------------------------------------------------------------
// Laws
// ---------------------------------------------------------------------------

/// The row that a completed call is charged with says the same of the call
/// whatever became of its prompt: who pays, what answered, how many tokens and how
/// much. Only the prompt that it names differs.
pub proof fn the_charge_is_the_same_whatever_became_of_the_prompt(
    c: Call,
    p: PromptOutcome,
    q: PromptOutcome,
    e: NewCostLedgerEntry,
    f: NewCostLedgerEntry,
)
    requires
        is_ledger_of(e, c, ledger_prompt(p)),
        is_ledger_of(f, c, ledger_prompt(q)),
    ensures
        e.cost_usd == c.cost_usd && f.cost_usd == c.cost_usd,
        e.user_id == f.user_id && e.api_key_id == f.api_key_id,
        e.model@ == f.model@ && e.provider@ == f.provider@,
        opt_text(e.project) == opt_text(f.project),
        e.tokens_in == f.tokens_in && e.tokens_out == f.tokens_out,
        e.tokens_estimated == f.tokens_estimated,
        opt_text(e.attribution_correlation_id) == opt_text(f.attribution_correlation_id),
        e.attribution_tags@ == f.attribution_tags@,
        e.experiment_id == f.experiment_id,
        opt_text(e.experiment_variant) == opt_text(f.experiment_variant),
        e.prompt_id is Some <==> p is Stored,
{
}

/// A caller that asks for no log leaves no prompt and reaches no callback,
/// whatever the operator or an experiment says.
pub proof fn no_log_is_honoured(storage: StorageConfig, retain_content: bool)
    ensures
        !log_plan(true, storage, retain_content).write_prompt,
        log_plan(true, storage, retain_content).skip_callbacks,
{
}

/// An experiment that retains content never opens the way to callbacks.
pub proof fn retention_does_not_widen_egress(no_log: bool, storage: StorageConfig)
    ensures
        log_plan(no_log, storage, true).skip_callbacks == log_plan(
            no_log,
            storage,
            false,
        ).skip_callbacks,
{
}

/// The two rows of a call tell the same story: who pays, for which project, what
/// answered, how many tokens and how much.
pub proof fn rows_of_a_call_agree(
    p: NewPrompt,
    e: NewCostLedgerEntry,
    c: Call,
    prompt_id: Option<i64>,
)
    requires
        is_prompt_of(p, c),
        is_ledger_of(e, c, prompt_id),
    ensures
        p.user_id == e.user_id,
        p.routed_model@ == e.model@,
        p.provider@ == e.provider@,
        p.prompt_tokens == e.tokens_in,
        p.completion_tokens == e.tokens_out,
        p.cost_usd == e.cost_usd,
        opt_text(p.project) == opt_text(e.project),
        opt_text(p.attribution_correlation_id) == opt_text(e.attribution_correlation_id),
        p.attribution_tags@ == e.attribution_tags@,
        p.experiment_id == e.experiment_id,
        opt_text(p.experiment_variant) == opt_text(e.experiment_variant),
{
}

/// Every request is charged to the project it names, and to the key's project
/// where it names none.
pub proof fn spend_follows_the_project(payer: Payer, user: User, a: Attribution)
    requires
        payer.pays_for(user, a),
    ensures
        a.project is Some ==> opt_text(payer.project) == opt_text(a.project),
        a.project is None ==> opt_text(payer.project) == opt_text(user.api_key_project),
{
}

/// The row of the prompt log tells the call as it was: what was asked for and what answered,
/// the tokens that went in and came out, the time it took and what it cost.
pub proof fn prompts_tell_the_call(p: NewPrompt, c: Call)
    requires
        is_prompt_of(p, c),
    ensures
        p.user_id == c.payer.user_id,
        p.request_model@ == c.request_model@ && p.routed_model@ == c.model@ && p.provider@ == c.provider@,
        p.messages@ == c.messages@,
        opt_text(p.response) == opt_text(c.response),
        opt_text(p.finish_reason) == opt_text(c.finish_reason),
        p.prompt_tokens == c.prompt_tokens && p.completion_tokens == c.completion_tokens,
        p.cache_read_tokens == c.cache_read_tokens && p.cache_write_tokens == c.cache_write_tokens,
        p.cost_usd == c.cost_usd,
        p.latency_ms == c.latency_ms && p.ttft_ms == c.ttft_ms && p.attempts == c.attempts,
        opt_text(p.project) == opt_text(c.payer.project),
        opt_text(p.attribution_correlation_id) == opt_text(c.payer.correlation_id),
        p.attribution_tags@ == c.payer.tags@,
        p.experiment_id == c.payer.experiment_id,
        opt_text(p.experiment_variant) == opt_text(c.payer.experiment_variant),
{
}

/// The ledger charges the call to the one who pays for it: the tokens that went in and those
/// that came out each to their own count, with the cost, the key and the project.
pub proof fn the_ledger_charges_the_call(e: NewCostLedgerEntry, c: Call, prompt_id: Option<i64>)
    requires
        is_ledger_of(e, c, prompt_id),
    ensures
        e.user_id == c.payer.user_id && e.api_key_id == c.payer.api_key_id,
        e.prompt_id == prompt_id,
        e.model@ == c.model@ && e.provider@ == c.provider@,
        e.tokens_in == c.prompt_tokens && e.tokens_out == c.completion_tokens,
        e.cost_usd == c.cost_usd,
        opt_text(e.project) == opt_text(c.payer.project),
        opt_text(e.attribution_correlation_id) == opt_text(c.payer.correlation_id),
        e.attribution_tags@ == c.payer.tags@,
        e.experiment_id == c.payer.experiment_id,
        opt_text(e.experiment_variant) == opt_text(c.payer.experiment_variant),
        e.tokens_estimated == c.tokens_estimated,
{
}

/// Callbacks hear of the call that was stored: under its number, with what was asked, what
/// was answered and what it cost.
pub proof fn callbacks_hear_of_the_call(e: CallbackEvent, c: Call, prompt_id: i64)
    requires
        is_event_of(e, c, prompt_id),
    ensures
        e.trace_id@ == int_text(prompt_id as int),
        e.user_id == c.payer.user_id && e.model@ == c.model@ && e.provider@ == c.provider@,
        json_of_text(c.messages@) matches Some(m) ==> e.input.model() == m,
        c.response matches Some(t) ==> e.output@ == t@,
        e.prompt_tokens == c.prompt_tokens && e.completion_tokens == c.completion_tokens,
        e.cost_usd == c.cost_usd,
        c.latency_ms matches Some(ms) ==> e.latency_ms == ms,
{
}

/// A prompt is stored where the operator stores prompts or an experiment retains content, its
/// content under the experiment's terms where there is one; and callbacks are told only where
/// the operator stores prompts.
pub proof fn logs_follow_the_operator(storage: StorageConfig, retain_content: bool)
    ensures
        log_plan(false, storage, retain_content).write_prompt <==> storage.store_prompts || retain_content,
        log_plan(false, storage, retain_content).skip_callbacks <==> !storage.store_prompts,
        log_plan(false, storage, false).storage == storage,
        log_plan(false, storage, true).storage.store_prompt_content,
        ledger_prompt(PromptOutcome::Skipped) is None && ledger_prompt(PromptOutcome::Failed) is None,
        forall|id: i64| #[trigger] ledger_prompt(PromptOutcome::Stored(id)) == Some(id),
{
}

/// The payer is the one who asked, with the key, the correlation id and the tags of the request.
pub proof fn the_payer_is_the_one_who_asked(p: Payer, user: User, a: Attribution)
    requires
        p.pays_for(user, a),
    ensures
        p.user_id == user.id && p.api_key_id == user.api_key_id,
        opt_text(p.correlation_id) == a@.correlation_id,
        p.tags@ == map_text(a@.tags),
        p.experiment_id is None && p.experiment_variant is None,
{
}

} // verus!
