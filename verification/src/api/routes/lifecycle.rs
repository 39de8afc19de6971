//! Notices to the operator's lifecycle hooks: a request came, a budget was
//! exceeded, an answer went out.

use crate::api::routes::completions::messages_of;
use crate::api::routes::gate::{BudgetContext, PolicyDecision};
use crate::api::routes::usage::Call;
use crate::json::Json;
use crate::records::Usd;
use crate::text::same;
use vstd::prelude::*;

verus! {

/// What hooks are told.
#[derive(Debug, PartialEq, Eq)]
pub enum Notice {
    /// A chat completion was asked for, with so many messages.
    RequestReceived { user_name: String, model: String, messages: usize },
    /// A request was refused because a budget is used up.
    BudgetExceeded {
        user_name: String,
        model: String,
        limit_usd: Usd,
        spent_usd: Usd,
        window: String,
    },
    /// A request was answered.
    ResponseSent {
        user_name: String,
        request_model: String,
        model: String,
        cost_usd: Usd,
        latency_ms: i64,
    },
}

impl Notice {
    /// The name under which hooks ask for a notice.
    pub open spec fn event(&self) -> Seq<char> {
        match *self {
            Notice::RequestReceived { .. } => "on_request_received"@,
            Notice::BudgetExceeded { .. } => "on_budget_exceeded"@,
            Notice::ResponseSent { .. } => "on_response_sent"@,
        }
    }

    pub fn event_name(&self) -> (r: &'static str)
        ensures
            r@ == self.event(),
    {
        match self {
            Notice::RequestReceived { .. } => "on_request_received",
            Notice::BudgetExceeded { .. } => "on_budget_exceeded",
            Notice::ResponseSent { .. } => "on_response_sent",
        }
    }
}

/// The places, in order, of the hooks that ask for `event`.
pub open spec fn listening(hooks: Seq<String>, event: Seq<char>) -> Seq<usize>
    decreases hooks.len(),
{
    if hooks.len() == 0 {
        Seq::empty()
    } else if hooks.last()@ == event {
        listening(hooks.drop_last(), event).push((hooks.len() - 1) as usize)
    } else {
        listening(hooks.drop_last(), event)
    }
}

/// Which hooks a notice goes to, by the events that they ask for.
pub fn listeners(hooks: &Vec<String>, notice: &Notice) -> (r: Vec<usize>)
    ensures
        r@ == listening(hooks@, notice.event()),
{
    let event = notice.event_name();
    let mut out: Vec<usize> = Vec::new();
    let mut i: usize = 0;
    while i < hooks.len()
        invariant
            i <= hooks@.len(),
            event@ == notice.event(),
            out@ == listening(hooks@.take(i as int), notice.event()),
        decreases hooks@.len() - i,
    {
        assert(hooks@.take(i + 1).drop_last() =~= hooks@.take(i as int));
        if same(hooks[i].as_str(), event) {
            out.push(i);
        }
        i += 1;
    }
    assert(hooks@.take(i as int) =~= hooks@);
    out
}

/// The notice of a chat completion as it arrived.
pub fn request_received(user_name: &str, model: &str, body: &Json) -> (r: Notice)
    ensures
        r matches Notice::RequestReceived { user_name: u, model: m, messages } && u@ == user_name@
            && m@ == model@ && messages == messages_of(body.model()).len(),
{
    let mut messages: usize = 0;
    if let Some(v) = body.get("messages") {
        if let Some(items) = v.as_array() {
            messages = items.len();
        }
    }
    Notice::RequestReceived { user_name: user_name.to_owned(), model: model.to_owned(), messages }
}

/// The budget behind a decision, if it is one that was exceeded.
pub open spec fn exceeded(asked: Result<PolicyDecision, String>) -> Option<BudgetContext> {
    match asked {
        Ok(PolicyDecision::Deny { budget_context, .. }) => budget_context,
        _ => None,
    }
}

/// The notice that a decision calls for: none but where a budget was exceeded. A
/// denial for any other reason is not told.
pub fn budget_exceeded(
    user_name: &str,
    model: &str,
    asked: &Result<PolicyDecision, String>,
) -> (r: Option<Notice>)
    ensures
        match exceeded(*asked) {
            Some(c) => r matches Some(
                Notice::BudgetExceeded { user_name: u, model: m, limit_usd, spent_usd, window },
            ) && u@ == user_name@ && m@ == model@ && limit_usd == c.limit_usd && spent_usd
                == c.spent_usd && window@ == c.window@,
            None => r is None,
        },
{
    match asked {
        Ok(PolicyDecision::Deny { budget_context: Some(c), .. }) => Some(
            Notice::BudgetExceeded {
                user_name: user_name.to_owned(),
                model: model.to_owned(),
                limit_usd: c.limit_usd,
                spent_usd: c.spent_usd,
                window: c.window.clone(),
            },
        ),
        _ => None,
    }
}

/// The notice of an answer, with what it cost and how long it took.
pub fn response_sent(user_name: &str, call: &Call) -> (r: Notice)
    ensures
        r matches Notice::ResponseSent { user_name: u, request_model, model, cost_usd, latency_ms }
            && u@ == user_name@ && request_model@ == call.request_model@ && model@ == call.model@
            && cost_usd == call.cost_usd && latency_ms == (match call.latency_ms {
            Some(ms) => ms,
            None => 0,
        }),
{
    Notice::ResponseSent {
        user_name: user_name.to_owned(),
        request_model: call.request_model.clone(),
        model: call.model.clone(),
        cost_usd: call.cost_usd,
        latency_ms: match call.latency_ms {
            Some(ms) => ms,
            None => 0,
        },
    }
}

// ---------------------------------------------------------------------------
// Laws
// ---------------------------------------------------------------------------

/// A hook hears of an event if and only if it asks for it.
pub proof fn hooks_hear_what_they_ask_for(hooks: Seq<String>, event: Seq<char>, i: usize)
    requires
        i < hooks.len(),
        hooks.len() <= usize::MAX,
    ensures
        listening(hooks, event).contains(i) <==> hooks[i as int]@ == event,
    decreases hooks.len(),
{
    let front = hooks.drop_last();
    let heard = listening(hooks, event);
    let before = listening(front, event);
    let last = (hooks.len() - 1) as usize;
    lemma_listeners_are_hooks(front, event);
    if i == last {
        if hooks.last()@ == event {
            assert(heard[heard.len() - 1] == i);
        } else if heard.contains(i) {
            let k = choose|k: int| 0 <= k < heard.len() && heard[k] == i;
            assert(before[k] < front.len());
        }
    } else {
        hooks_hear_what_they_ask_for(front, event, i);
        assert(front[i as int] == hooks[i as int]);
        if hooks.last()@ == event {
            if before.contains(i) {
                let k = choose|k: int| 0 <= k < before.len() && before[k] == i;
                assert(heard[k] == i);
            }
            if heard.contains(i) {
                let k = choose|k: int| 0 <= k < heard.len() && heard[k] == i;
                assert(k < before.len());
                assert(before[k] == i);
            }
        }
    }
}

proof fn lemma_listeners_are_hooks(hooks: Seq<String>, event: Seq<char>)
    requires
        hooks.len() <= usize::MAX,
    ensures
        forall|k: int|
            0 <= k < listening(hooks, event).len() ==> (#[trigger] listening(hooks, event)[k])
                < hooks.len(),
    decreases hooks.len(),
{
    if hooks.len() > 0 {
        let before = listening(hooks.drop_last(), event);
        lemma_listeners_are_hooks(hooks.drop_last(), event);
        assert forall|k: int| 0 <= k < listening(hooks, event).len() implies (
        #[trigger] listening(hooks, event)[k]) < hooks.len() by {
            if k < before.len() {
                assert(before[k] < hooks.drop_last().len());
            }
        }
    }
}

/// Hooks are told in the order in which they are set up, each once.
pub proof fn hooks_are_told_in_order(hooks: Seq<String>, event: Seq<char>)
    requires
        hooks.len() <= usize::MAX,
    ensures
        forall|j: int, k: int|
            0 <= j < k < listening(hooks, event).len() ==> #[trigger] listening(hooks, event)[j]
                < #[trigger] listening(hooks, event)[k],
        forall|k: int|
            0 <= k < listening(hooks, event).len() ==> (#[trigger] listening(hooks, event)[k])
                < hooks.len() && hooks[listening(hooks, event)[k] as int]@ == event,
    decreases hooks.len(),
{
    if hooks.len() > 0 {
        let front = hooks.drop_last();
        let before = listening(front, event);
        hooks_are_told_in_order(front, event);
        assert forall|k: int| 0 <= k < before.len() implies (#[trigger] before[k]) < front.len()
            && hooks[before[k] as int]@ == event by {
            assert(front[before[k] as int] == hooks[before[k] as int]);
        }
    }
}

/// Each kind of notice goes by its own name, and a budget is told of exactly where a request
/// was refused for it.
pub proof fn notices_go_by_their_name(n: Notice, asked: Result<PolicyDecision, String>, c: BudgetContext)
    ensures
        n is RequestReceived <==> n.event() == "on_request_received"@,
        n is BudgetExceeded <==> n.event() == "on_budget_exceeded"@,
        n is ResponseSent <==> n.event() == "on_response_sent"@,
        exceeded(asked) == Some(c) <==> (asked matches Ok(PolicyDecision::Deny { budget_context, .. })
            && budget_context == Some(c)),
{
    reveal_strlit("on_request_received");
    reveal_strlit("on_budget_exceeded");
    reveal_strlit("on_response_sent");
    assert("on_request_received"@.len() == 19);
    assert("on_budget_exceeded"@.len() == 18);
    assert("on_response_sent"@.len() == 16);
}

} // verus!
