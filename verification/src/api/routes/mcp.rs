//! The registry of Model Context Protocol servers: how each outcome of the store
//! is answered.

use crate::json::{Json, JsonModel};
use crate::ordered::with_entry;
use crate::text::{contains, contains_text};
use vstd::prelude::*;

verus! {

pub struct CreateMcpServerRequest {
    pub name: String,
    pub url: String,
    pub description: Option<String>,
}

pub struct UpdateMcpServerRequest {
    pub name: Option<String>,
    pub url: Option<String>,
    pub description: Option<String>,
    pub enabled: Option<bool>,
}

/// The registered servers, as they are listed.
pub fn servers_body(servers: Json) -> (r: Json)
    requires
        servers.wf(),
    ensures
        r.model() == JsonModel::Obj(with_entry(Seq::empty(), "servers"@, servers.model())),
        r.wf(),
{
    Json::object().with("servers", servers)
}

/// A refusal: its HTTP status and its words.
#[derive(Debug, PartialEq, Eq)]
pub struct Refusal {
    pub status: u16,
    pub error: String,
}

pub open spec fn refuses(r: Refusal, status: u16, error: Seq<char>) -> bool {
    r.status == status && r.error@ == error
}

/// The body of a refusal.
pub fn refusal_body(r: &Refusal) -> (j: Json)
    ensures
        j.model() == JsonModel::Obj(
            with_entry(Seq::empty(), "error"@, JsonModel::Str(r.error@)),
        ),
        j.wf(),
{
    Json::object().with("error", Json::Str(r.error.clone()))
}

/// The answer where the store failed.
pub fn internal_error() -> (r: Refusal)
    ensures
        refuses(r, 500, "internal error"@),
{
    Refusal { status: 500, error: "internal error".to_owned() }
}

/// The answer where there is no such server.
pub fn not_found() -> (r: Refusal)
    ensures
        refuses(r, 404, "not found"@),
{
    Refusal { status: 404, error: "not found".to_owned() }
}

/// Whether the store's words speak of a name that is taken.
pub open spec fn speaks_of_uniqueness(message: Seq<char>) -> bool {
    contains_text(message, "UNIQUE constraint failed"@) || contains_text(
        message,
        "unique constraint"@,
    )
}

/// The answer to a failed registration: names are unique.
pub fn create_refusal(message: &str) -> (r: Refusal)
    ensures
        if speaks_of_uniqueness(message@) {
            refuses(r, 409, "server name already exists"@)
        } else {
            refuses(r, 500, "internal error"@)
        },
{
    if contains(message, "UNIQUE constraint failed") || contains(message, "unique constraint") {
        Refusal { status: 409, error: "server name already exists".to_owned() }
    } else {
        internal_error()
    }
}

/// What a lookup, an update or a removal came to: there or not, or unknown.
pub fn found_or_refused(found: Result<bool, String>) -> (r: Result<(), Refusal>)
    ensures
        match found {
            Ok(true) => r is Ok,
            Ok(false) => r matches Err(e) && refuses(e, 404, "not found"@),
            Err(_) => r matches Err(e) && refuses(e, 500, "internal error"@),
        },
{
    match found {
        Ok(true) => Ok(()),
        Ok(false) => Err(not_found()),
        Err(_) => Err(internal_error()),
    }
}

/// A refusal carries its status and its words; a name that is taken is told from what the
/// store said.
pub proof fn refusals_carry_their_status(r: Refusal, a: Seq<char>, b: Seq<char>, s: u16, t: u16)
    ensures
        refuses(r, s, a) && refuses(r, t, b) ==> s == t && a == b,
        refuses(r, s, a) ==> r.status == s && r.error@ == a,
        contains_text(a, "UNIQUE constraint failed"@) || contains_text(a, "unique constraint"@)
            <==> speaks_of_uniqueness(a),
{
}

} // verus!
