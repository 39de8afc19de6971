//! The audit log: who did what to which thing.

use crate::api::admin::auth::AdminClaims;
use crate::records::NewAuditLogEntry;
use crate::text::{i64_text, int_text, opt_text};
use vstd::prelude::*;

verus! {

/// A line of the audit log.
pub struct EntryModel {
    pub actor_id: Option<i64>,
    pub actor_name: Seq<char>,
    pub action: Seq<char>,
    pub target: Option<Seq<char>>,
    pub before_json: Option<Seq<char>>,
    pub after_json: Option<Seq<char>>,
}

impl View for NewAuditLogEntry {
    type V = EntryModel;

    open spec fn view(&self) -> EntryModel {
        EntryModel {
            actor_id: self.actor_id,
            actor_name: self.actor_name@,
            action: self.action@,
            target: opt_text(self.target),
            before_json: opt_text(self.before_json),
            after_json: opt_text(self.after_json),
        }
    }
}

/// What an admin did. Nothing is kept of the state before.
pub open spec fn entry_of(
    actor: AdminClaims,
    action: Seq<char>,
    target: Seq<char>,
    after_json: Option<Seq<char>>,
) -> EntryModel {
    EntryModel {
        actor_id: Some(actor.sub),
        actor_name: actor.name@,
        action,
        target: Some(target),
        before_json: None,
        after_json,
    }
}

pub fn entry(
    actor: &AdminClaims,
    action: &str,
    target: String,
    after_json: Option<String>,
) -> (r: NewAuditLogEntry)
    ensures
        r@ == entry_of(*actor, action@, target@, opt_text(after_json)),
{
    NewAuditLogEntry {
        actor_id: Some(actor.sub),
        actor_name: actor.name.clone(),
        action: action.to_owned(),
        target: Some(target),
        before_json: None,
        after_json,
    }
}

/// What an admin changed, with the state before and after as far as it is kept.
pub open spec fn change_of(
    actor: AdminClaims,
    action: Seq<char>,
    target: Seq<char>,
    before_json: Option<Seq<char>>,
    after_json: Option<Seq<char>>,
) -> EntryModel {
    EntryModel { before_json, ..entry_of(actor, action, target, after_json) }
}

pub fn change(
    actor: &AdminClaims,
    action: &str,
    target: String,
    before_json: Option<String>,
    after_json: Option<String>,
) -> (r: NewAuditLogEntry)
    ensures
        r@ == change_of(*actor, action@, target@, opt_text(before_json), opt_text(after_json)),
{
    NewAuditLogEntry { before_json, ..entry(actor, action, target, after_json) }
}

/// A thing by its kind and its id, as in `user:7`.
pub open spec fn named(kind: Seq<char>, id: i64) -> Seq<char> {
    kind + ":"@ + int_text(id as int)
}

pub fn name_of(kind: &str, id: i64) -> (r: String)
    ensures
        r@ == named(kind@, id),
{
    kind.to_owned().concat(":").concat(i64_text(id).as_str())
}

/// An entry says who acted, what they did, to what, and how it stood before and after.
pub proof fn entries_say_who_did_what(
    actor: AdminClaims,
    action: Seq<char>,
    target: Seq<char>,
    before: Option<Seq<char>>,
    after: Option<Seq<char>>,
    id: i64,
)
    ensures
        entry_of(actor, action, target, after).actor_id == Some(actor.sub),
        entry_of(actor, action, target, after).actor_name == actor.name@,
        entry_of(actor, action, target, after).action == action,
        entry_of(actor, action, target, after).target == Some(target),
        entry_of(actor, action, target, after).before_json is None,
        entry_of(actor, action, target, after).after_json == after,
        change_of(actor, action, target, before, after).before_json == before,
        change_of(actor, action, target, before, after).after_json == after,
        change_of(actor, action, target, before, after).actor_id == Some(actor.sub),
        change_of(actor, action, target, before, after).actor_name == actor.name@,
        change_of(actor, action, target, before, after).action == action,
        change_of(actor, action, target, before, after).target == Some(target),
        named(target, id) == target + ":"@ + int_text(id as int),
{
}

/// An entry is shown part by part.
pub proof fn entries_show_their_parts(e: NewAuditLogEntry)
    ensures
        e@.actor_id == e.actor_id,
        e@.actor_name == e.actor_name@,
        e@.action == e.action@,
        e@.target == opt_text(e.target),
        e@.before_json == opt_text(e.before_json),
        e@.after_json == opt_text(e.after_json),
{
}

} // verus!
