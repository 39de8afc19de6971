//! The loop around a provider call: backoff retries, then the fallback chain.
//!
//! A `CallFlow` is told what happened and says what to do next; the driver does
//! it. No fallback for a bound request: the pinned model failing is the
//! experiment's result, and a substitute answering would be recorded against the
//! variant that did not answer. A request with tools never falls back onto an
//! adapter that would drop them.

use crate::api::error::ApiError;
use crate::api::routes::proxy::{notes_error, BreakerNote};
use vstd::prelude::*;

verus! {

/// How far one search along the chain goes, so that a chain that loops ends.
pub const MAX_FALLBACK_HOPS: usize = 16;

/// The next entry of a fallback chain, resolved.
#[derive(Debug, Clone, PartialEq, Eq)]
pub struct Candidate {
    /// The name in the chain.
    pub name: String,
    pub provider: String,
    pub model: String,
    /// No operator has disabled it.
    pub available: bool,
    /// Its adapter forwards tools.
    pub forwards_tools: bool,
}

/// What the flow waits for.
#[derive(Debug, Clone, Copy, PartialEq, Eq, Structural)]
pub enum CallPhase {
    Breaker,
    Adapter,
    Calling,
    Sleeping,
    Searching,
    Permission,
    Ended,
}

/// What the driver is to do.
#[derive(Debug, PartialEq, Eq)]
pub enum CallAction {
    /// Is the circuit breaker of this provider open?
    CheckBreaker { provider: String },
    /// Is there an adapter for this provider?
    FindAdapter { provider: String },
    /// Call the provider.
    Call { provider: String, model: String },
    /// Wait, then go on.
    Sleep { millis: u64 },
    /// What comes after this name in the fallback chain?
    NextFallback { after: String },
    /// May the user use this model?
    CheckPermission { model: String },
    /// The call succeeded: this is the pair that answered, after this many calls
    /// and moves to another pair.
    Answered { provider: String, model: String, attempts: i64, fallbacks: i64 },
    Fail(ApiError),
}

/// One request on its way to an answer.
#[derive(Debug, PartialEq, Eq)]
pub struct CallFlow {
    /// The request is bound to an experiment's variant.
    pub bound: bool,
    /// The request carries tools.
    pub require_tools: bool,
    pub provider: String,
    pub model: String,
    /// Provider calls made: first tries, retries and fallbacks that reached a
    /// provider. A circuit-breaker skip calls nobody.
    pub attempts: i64,
    /// Moves to another pair along the chain.
    pub fallbacks: i64,
    /// Retries of the current pair.
    pub retries: u32,
    /// Where the search along the chain stands.
    pub cursor: String,
    /// How far the current search has gone.
    pub hops: usize,
    /// The error that stands if no fallback is found.
    pub pending: String,
    pub candidate: Option<Candidate>,
    pub phase: CallPhase,
}

/// Whether a candidate may be tried, as far as the operator and the tools go.
pub open spec fn usable(c: Candidate, require_tools: bool) -> bool {
    c.available && (require_tools ==> c.forwards_tools)
}

pub open spec fn breaker_open_text(provider: Seq<char>) -> Seq<char> {
    "circuit breaker open for "@ + provider
}

/// Whether the action fails the request with the upstream's error.
pub open spec fn fails_with(action: CallAction, message: Seq<char>) -> bool {
    action matches CallAction::Fail(ApiError::ProviderError(e)) && e@ == message
}

pub open spec fn asks_breaker(action: CallAction, provider: Seq<char>) -> bool {
    action matches CallAction::CheckBreaker { provider: p } && p@ == provider
}

pub open spec fn calls(action: CallAction, provider: Seq<char>, model: Seq<char>) -> bool {
    action matches CallAction::Call { provider: p, model: m } && p@ == provider && m@ == model
}

pub open spec fn searches_after(action: CallAction, name: Seq<char>) -> bool {
    action matches CallAction::NextFallback { after } && after@ == name
}

/// The step past a candidate that will not do: the search goes on behind its name,
/// and at the bound the pending error stands.
pub open spec fn passes_over(
    before: CallFlow,
    after: CallFlow,
    action: CallAction,
    name: Seq<char>,
) -> bool {
    &&& after.hops == before.hops + 1
    &&& before.hops + 1 < MAX_FALLBACK_HOPS ==> {
        &&& searches_after(action, name)
        &&& after.phase == CallPhase::Searching
        &&& after.cursor@ == name
    }
    &&& before.hops + 1 == MAX_FALLBACK_HOPS ==> fails_with(action, before.pending@)
}

impl CallFlow {
    /// What holds of every flow: a search goes a bounded way, and whoever is
    /// asked about is usable.
    pub open spec fn wf(&self) -> bool {
        &&& self.hops <= MAX_FALLBACK_HOPS
        &&& self.phase == CallPhase::Searching ==> self.hops < MAX_FALLBACK_HOPS && !self.bound
        &&& self.phase == CallPhase::Permission ==> self.hops < MAX_FALLBACK_HOPS && !self.bound
            && (self.candidate matches Some(c) && usable(c, self.require_tools))
    }

    /// What every step keeps: who the request is for, and, for a bound request,
    /// its provider and model, for which no substitute is ever sought. Calls are
    /// counted as they are made, and so are moves to another pair, whose breaker
    /// is asked first.
    pub open spec fn keeps(&self, next: CallFlow, action: CallAction) -> bool {
        &&& next.bound == self.bound
        &&& next.require_tools == self.require_tools
        &&& self.bound ==> next.provider@ == self.provider@ && next.model@ == self.model@
            && !(action is NextFallback)
        &&& next.attempts == self.attempts + (if action is Call {
            1int
        } else {
            0int
        })
        &&& next.fallbacks == self.fallbacks + (if action is CheckBreaker {
            1int
        } else {
            0int
        })
        &&& action is Fail || action is Answered <==> next.phase == CallPhase::Ended
    }

    pub fn new(bound: bool, require_tools: bool, provider: String, model: String) -> (r: (
        CallFlow,
        CallAction,
    ))
        ensures
            r.0.wf(),
            r.0.bound == bound,
            r.0.require_tools == require_tools,
            r.0.provider@ == provider@,
            r.0.model@ == model@,
            r.0.attempts == 0,
            r.0.fallbacks == 0,
            r.0.phase == CallPhase::Breaker,
            asks_breaker(r.1, provider@),
    {
        let action = CallAction::CheckBreaker { provider: provider.clone() };
        let flow = CallFlow {
            bound,
            require_tools,
            provider,
            model,
            attempts: 0,
            fallbacks: 0,
            retries: 0,
            cursor: String::new(),
            hops: 0,
            pending: String::new(),
            candidate: None,
            phase: CallPhase::Breaker,
        };
        (flow, action)
    }

    /// The current pair cannot answer, for the reason `message`: fail a bound
    /// request, and look for a fallback of any other.
    fn give_up(&mut self, message: String) -> (r: CallAction)
        requires
            old(self).wf(),
        ensures
            final(self).wf(),
            old(self).keeps(*final(self), r),
            final(self).provider@ == old(self).provider@,
            final(self).model@ == old(self).model@,
            final(self).pending@ == message@,
            old(self).bound ==> fails_with(r, message@),
            !old(self).bound ==> {
                &&& searches_after(r, old(self).model@)
                &&& final(self).phase == CallPhase::Searching
                &&& final(self).cursor@ == old(self).model@
                &&& final(self).hops == 0
            },
    {
        self.pending = message.clone();
        self.candidate = None;
        self.hops = 0;
        if self.bound {
            self.phase = CallPhase::Ended;
            return CallAction::Fail(ApiError::ProviderError(message));
        }
        self.cursor = self.model.clone();
        self.phase = CallPhase::Searching;
        CallAction::NextFallback { after: self.model.clone() }
    }

    /// The circuit breaker answered. An open one is a reason to give the pair up
    /// without calling it.
    pub fn on_breaker(&mut self, open: bool) -> (r: CallAction)
        requires
            old(self).wf(),
            old(self).phase == CallPhase::Breaker,
        ensures
            final(self).wf(),
            old(self).keeps(*final(self), r),
            final(self).provider@ == old(self).provider@,
            final(self).model@ == old(self).model@,
            !open ==> {
                &&& final(self).phase == CallPhase::Adapter
                &&& r matches CallAction::FindAdapter { provider } && provider@
                    == old(self).provider@
            },
            open && old(self).bound ==> fails_with(r, breaker_open_text(old(self).provider@)),
            open && !old(self).bound ==> {
                &&& searches_after(r, old(self).model@)
                &&& final(self).phase == CallPhase::Searching
                &&& final(self).pending@ == breaker_open_text(old(self).provider@)
                &&& final(self).cursor@ == old(self).model@
                &&& final(self).hops == 0
            },
    {
        if open {
            let message = "circuit breaker open for ".to_owned().concat(self.provider.as_str());
            return self.give_up(message);
        }
        self.phase = CallPhase::Adapter;
        CallAction::FindAdapter { provider: self.provider.clone() }
    }

    /// The registry answered. Without an adapter the request fails; with one the
    /// provider is called.
    pub fn on_adapter(&mut self, found: Result<(), String>) -> (r: CallAction)
        requires
            old(self).wf(),
            old(self).phase == CallPhase::Adapter,
            old(self).attempts < i64::MAX,
        ensures
            final(self).wf(),
            old(self).keeps(*final(self), r),
            final(self).provider@ == old(self).provider@,
            final(self).model@ == old(self).model@,
            found matches Err(e) ==> fails_with(r, e@),
            found is Ok ==> {
                &&& final(self).phase == CallPhase::Calling
                &&& final(self).retries == 0
                &&& calls(r, old(self).provider@, old(self).model@)
            },
    {
        match found {
            Ok(_) => {
                self.retries = 0;
                self.attempts = self.attempts + 1;
                self.phase = CallPhase::Calling;
                CallAction::Call { provider: self.provider.clone(), model: self.model.clone() }
            },
            Err(e) => {
                self.phase = CallPhase::Ended;
                CallAction::Fail(ApiError::ProviderError(e))
            },
        }
    }

    /// The provider answered, which speaks for it.
    pub fn on_success(&mut self) -> (r: (BreakerNote, CallAction))
        requires
            old(self).wf(),
            old(self).phase == CallPhase::Calling,
        ensures
            final(self).wf(),
            old(self).keeps(*final(self), r.1),
            final(self).provider@ == old(self).provider@,
            final(self).model@ == old(self).model@,
            r.0 is Success,
            r.1 matches CallAction::Answered { provider, model, attempts, fallbacks } && provider@
                == old(self).provider@ && model@ == old(self).model@ && attempts
                == old(self).attempts && fallbacks == old(self).fallbacks,
    {
        self.phase = CallPhase::Ended;
        let action = CallAction::Answered {
            provider: self.provider.clone(),
            model: self.model.clone(),
            attempts: self.attempts,
            fallbacks: self.fallbacks,
        };
        (BreakerNote::Success, action)
    }

    /// The provider failed with `message`. `retry` is the delay after which the
    /// retry policy would have the same pair called again, if it would. Only an
    /// error that is not retried is noted against the provider.
    pub fn on_error(&mut self, message: String, retry: Option<u64>) -> (r: (
        Option<BreakerNote>,
        CallAction,
    ))
        requires
            old(self).wf(),
            old(self).phase == CallPhase::Calling,
        ensures
            final(self).wf(),
            old(self).keeps(*final(self), r.1),
            final(self).provider@ == old(self).provider@,
            final(self).model@ == old(self).model@,
            retry matches Some(millis) ==> {
                &&& final(self).phase == CallPhase::Sleeping
                &&& final(self).retries == old(self).retries
                &&& r.0 is None
                &&& r.1 == (CallAction::Sleep { millis })
            },
            retry is None ==> (r.0 matches Some(note) && notes_error(note, message@)),
            retry is None && old(self).bound ==> fails_with(r.1, message@),
            retry is None && !old(self).bound ==> {
                &&& searches_after(r.1, old(self).model@)
                &&& final(self).phase == CallPhase::Searching
                &&& final(self).pending@ == message@
                &&& final(self).cursor@ == old(self).model@
                &&& final(self).hops == 0
            },
    {
        match retry {
            Some(millis) => {
                self.phase = CallPhase::Sleeping;
                (None, CallAction::Sleep { millis })
            },
            None => {
                let note = BreakerNote::Erred(message.clone());
                (Some(note), self.give_up(message))
            },
        }
    }

    /// The delay is over: the same pair is called again.
    pub fn on_slept(&mut self) -> (r: CallAction)
        requires
            old(self).wf(),
            old(self).phase == CallPhase::Sleeping,
            old(self).attempts < i64::MAX,
            old(self).retries < u32::MAX,
        ensures
            final(self).wf(),
            old(self).keeps(*final(self), r),
            final(self).provider@ == old(self).provider@,
            final(self).model@ == old(self).model@,
            final(self).phase == CallPhase::Calling,
            final(self).retries == old(self).retries + 1,
            calls(r, old(self).provider@, old(self).model@),
    {
        self.retries = self.retries + 1;
        self.attempts = self.attempts + 1;
        self.phase = CallPhase::Calling;
        CallAction::Call { provider: self.provider.clone(), model: self.model.clone() }
    }

    /// The candidate under the cursor will not do: go one further along the
    /// chain, as long as the bound allows.
    fn pass_over(&mut self, name: String) -> (r: CallAction)
        requires
            old(self).wf(),
            !old(self).bound,
            old(self).hops < MAX_FALLBACK_HOPS,
        ensures
            final(self).wf(),
            old(self).keeps(*final(self), r),
            final(self).provider@ == old(self).provider@,
            final(self).model@ == old(self).model@,
            final(self).pending@ == old(self).pending@,
            passes_over(*old(self), *final(self), r, name@),
    {
        self.candidate = None;
        self.hops = self.hops + 1;
        if self.hops < MAX_FALLBACK_HOPS {
            self.phase = CallPhase::Searching;
            self.cursor = name.clone();
            CallAction::NextFallback { after: name }
        } else {
            self.phase = CallPhase::Ended;
            CallAction::Fail(ApiError::ProviderError(self.pending.clone()))
        }
    }

    /// The chain answered. At its end the pending error stands; a disabled
    /// candidate, or one that would drop the request's tools, is passed over.
    pub fn on_candidate(&mut self, next: Option<Candidate>) -> (r: CallAction)
        requires
            old(self).wf(),
            old(self).phase == CallPhase::Searching,
        ensures
            final(self).wf(),
            old(self).keeps(*final(self), r),
            final(self).provider@ == old(self).provider@,
            final(self).model@ == old(self).model@,
            final(self).pending@ == old(self).pending@,
            next is None ==> fails_with(r, old(self).pending@),
            next matches Some(c) ==> if usable(c, old(self).require_tools) {
                &&& final(self).phase == CallPhase::Permission
                &&& final(self).candidate == next
                &&& final(self).hops == old(self).hops
                &&& r matches CallAction::CheckPermission { model } && model@ == c.model@
            } else {
                passes_over(*old(self), *final(self), r, c.name@)
            },
    {
        match next {
            None => {
                self.phase = CallPhase::Ended;
                CallAction::Fail(ApiError::ProviderError(self.pending.clone()))
            },
            Some(c) => {
                if !c.available || (self.require_tools && !c.forwards_tools) {
                    return self.pass_over(c.name);
                }
                let model = c.model.clone();
                self.candidate = Some(c);
                self.phase = CallPhase::Permission;
                CallAction::CheckPermission { model }
            },
        }
    }

    /// The policy answered for the candidate. Where it denies the model, or
    /// could not be asked, the candidate is passed over.
    pub fn on_permission(&mut self, permitted: bool) -> (r: CallAction)
        requires
            old(self).wf(),
            old(self).phase == CallPhase::Permission,
            old(self).fallbacks < i64::MAX,
        ensures
            final(self).wf(),
            old(self).keeps(*final(self), r),
            permitted ==> {
                &&& final(self).provider@ == old(self).candidate->0.provider@
                &&& final(self).model@ == old(self).candidate->0.model@
                &&& final(self).hops == 0
                &&& final(self).phase == CallPhase::Breaker
                &&& asks_breaker(r, old(self).candidate->0.provider@)
            },
            !permitted ==> {
                &&& final(self).provider@ == old(self).provider@
                &&& final(self).model@ == old(self).model@
                &&& final(self).pending@ == old(self).pending@
                &&& passes_over(*old(self), *final(self), r, old(self).candidate->0.name@)
            },
    {
        let candidate = match &self.candidate {
            Some(c) => (c.name.clone(), c.provider.clone(), c.model.clone()),
            None => (String::new(), String::new(), String::new()),
        };
        if permitted {
            self.provider = candidate.1;
            self.model = candidate.2;
            self.candidate = None;
            self.hops = 0;
            self.fallbacks = self.fallbacks + 1;
            self.phase = CallPhase::Breaker;
            CallAction::CheckBreaker { provider: self.provider.clone() }
        } else {
            self.pass_over(candidate.0)
        }
    }
}

// ---------------------------------------------------------------------------
// Laws
// ---------------------------------------------------------------------------

/// One step of a flow, as its methods promise it.
pub struct Step {
    pub before: CallFlow,
    pub after: CallFlow,
    pub action: CallAction,
}

/// Whether steps follow one another, each keeping what steps keep.
pub open spec fn is_walk(steps: Seq<Step>) -> bool {
    &&& forall|i: int|
        0 <= i < steps.len() ==> (#[trigger] steps[i]).before.keeps(
            steps[i].after,
            steps[i].action,
        )
    &&& forall|i: int, j: int|
        0 <= i && i + 1 == j && j < steps.len() ==> (#[trigger] steps[i]).after
            == (#[trigger] steps[j]).before
}

/// How many of the steps called a provider.
pub open spec fn calls_made(steps: Seq<Step>) -> int
    decreases steps.len(),
{
    if steps.len() == 0 {
        0
    } else {
        calls_made(steps.drop_last()) + (if steps.last().action is Call {
            1int
        } else {
            0int
        })
    }
}

/// How many of the steps moved on to another pair.
pub open spec fn moves_made(steps: Seq<Step>) -> int
    decreases steps.len(),
{
    if steps.len() == 0 {
        0
    } else {
        moves_made(steps.drop_last()) + (if steps.last().action is CheckBreaker {
            1int
        } else {
            0int
        })
    }
}

/// However long a request is retried and rerouted, the attempts it reports are
/// the provider calls that were made for it, and the fallbacks the moves along
/// the chain.
pub proof fn attempts_count_calls(steps: Seq<Step>)
    requires
        is_walk(steps),
        steps.len() > 0,
        steps[0].before.attempts == 0,
        steps[0].before.fallbacks == 0,
    ensures
        steps.last().after.attempts == calls_made(steps),
        steps.last().after.fallbacks == moves_made(steps),
    decreases steps.len(),
{
    let front = steps.drop_last();
    let last = steps.last();
    assert(steps[steps.len() - 1].before.keeps(last.after, last.action));
    if front.len() > 0 {
        assert(is_walk(front)) by {
            assert forall|i: int| 0 <= i < front.len() implies (#[trigger] front[i]).before.keeps(
                front[i].after,
                front[i].action,
            ) by {
                assert(front[i] == steps[i]);
            }
            assert forall|i: int, j: int| 0 <= i && i + 1 == j && j < front.len() implies (
            #[trigger] front[i]).after == (#[trigger] front[j]).before by {
                assert(front[i] == steps[i] && front[j] == steps[j]);
            }
        }
        assert(front[0] == steps[0]);
        attempts_count_calls(front);
        assert(front.last() == steps[steps.len() - 2]);
        assert(steps[steps.len() - 2].after == steps[steps.len() - 1].before);
    } else {
        assert(calls_made(front) == 0);
        assert(moves_made(front) == 0);
        assert(steps[0] == last);
    }
}

/// A bound request is answered by the pair it was pinned to or not at all: no
/// step changes the pair, and none looks for a substitute.
pub proof fn bound_requests_never_fall_back(steps: Seq<Step>, i: int)
    requires
        is_walk(steps),
        0 <= i < steps.len(),
        steps[0].before.bound,
    ensures
        steps[i].after.bound,
        steps[i].after.provider@ == steps[0].before.provider@,
        steps[i].after.model@ == steps[0].before.model@,
        !(steps[i].action is NextFallback),
    decreases i,
{
    assert(steps[i].before.keeps(steps[i].after, steps[i].action));
    if i > 0 {
        bound_requests_never_fall_back(steps, i - 1);
        assert(steps[i - 1].after == steps[i].before);
    }
}

/// A fallback is used only where it is in rotation and, for a request with tools, its adapter
/// forwards them; one that is passed over sends the search on behind it, and the search ends
/// with the error that started it after so many names.
pub proof fn fallbacks_are_passed_over_in_turn(
    c: Candidate,
    tools: bool,
    before: CallFlow,
    after: CallFlow,
    a: CallAction,
    name: Seq<char>,
)
    ensures
        usable(c, tools) <==> c.available && (!tools || c.forwards_tools),
        passes_over(before, after, a, name) ==> after.hops == before.hops + 1,
        passes_over(before, after, a, name) && before.hops < 15 ==> (
        a matches CallAction::NextFallback { after: n } && n@ == name && after.cursor@ == name && after.phase
            == CallPhase::Searching),
        passes_over(before, after, a, name) && before.hops == 15 ==> (a matches CallAction::Fail(
            ApiError::ProviderError(e),
        ) && e@ == before.pending@),
{
}

/// A step names the provider it asks about, calls the provider for the model, and fails with
/// the words it was given.
pub proof fn steps_say_what_they_ask(a: CallAction, p: Seq<char>, m: Seq<char>)
    ensures
        asks_breaker(a, p) <==> (a matches CallAction::CheckBreaker { provider } && provider@ == p),
        calls(a, p, m) <==> (a matches CallAction::Call { provider, model } && provider@ == p && model@ == m),
        searches_after(a, p) <==> (a matches CallAction::NextFallback { after } && after@ == p),
        fails_with(a, p) <==> (a matches CallAction::Fail(ApiError::ProviderError(e)) && e@ == p),
        breaker_open_text(p) == "circuit breaker open for "@ + p,
{
}

/// Every provider call is counted as an attempt and every move to another pair as a fallback,
/// and nothing else is; a bound request keeps its pair.
pub proof fn steps_are_counted(f: CallFlow, next: CallFlow, a: CallAction)
    requires
        f.keeps(next, a),
    ensures
        a is Call ==> next.attempts == f.attempts + 1,
        !(a is Call) ==> next.attempts == f.attempts,
        a is CheckBreaker ==> next.fallbacks == f.fallbacks + 1,
        !(a is CheckBreaker) ==> next.fallbacks == f.fallbacks,
        f.bound ==> next.provider@ == f.provider@ && next.model@ == f.model@ && !(a is NextFallback),
        next.bound == f.bound && next.require_tools == f.require_tools,
        a is Fail || a is Answered <==> next.phase == CallPhase::Ended,
{
}

/// A substitute is sought only for a request that is free to move and has not moved sixteen times,
/// and a permit is asked for only where the substitute can take the request.
pub proof fn only_free_requests_move(f: CallFlow)
    requires
        f.wf(),
    ensures
        f.phase == CallPhase::Searching || f.phase == CallPhase::Permission ==> !f.bound && f.hops < 16,
        f.phase == CallPhase::Permission ==> (f.candidate matches Some(c) && usable(c, f.require_tools)),
        f.hops <= 16,
{
}

} // verus!
