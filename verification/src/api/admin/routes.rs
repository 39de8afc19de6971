//! The admin API: callers, their keys, budgets and admins.
//!
//! No answer holds the hash of a key or of a password.

use crate::api::admin::audit::{entry, entry_of, name_of, named};
use crate::api::admin::auth::SuperAdminSession;
use crate::api::admin::dashboard::{chosen_role, role_or_viewer};
use crate::api::error::ApiError;
use crate::clock::{add_minutes, minutes_later, rfc3339, rfc3339_text, Moment};
use crate::codec::{
    bcrypt_accepts, hash_password, hash_token, key_shaped, new_api_key, token_hash,
};
use crate::json::{
    json_int, json_real, json_text_or_null, list_models, real_or_null, text_of_json, text_or_null,
    Json, JsonModel,
};
use crate::ordered::with_entry;
use crate::records::{
    AdminUser, ApiKey, NewAdminUser, NewApiKey, NewAuditLogEntry, Usd, User,
};
use crate::text::{copy_text, opt_text, quote, quoted, same};
use vstd::prelude::*;

verus! {

// ---------------------------------------------------------------------------
// What is told of keys and callers
// ---------------------------------------------------------------------------

/// A key as it is told. Its hash is not.
#[derive(Debug, Clone, PartialEq, Eq)]
pub struct ApiKeyResponse {
    pub id: i64,
    pub user_id: i64,
    pub label: Option<String>,
    pub enabled: bool,
    pub created_at: String,
}

impl From<ApiKey> for ApiKeyResponse {
    fn from(k: ApiKey) -> (r: ApiKeyResponse) {
        ApiKeyResponse {
            id: k.id,
            user_id: k.user_id,
            label: k.label,
            enabled: k.enabled,
            created_at: k.created_at,
        }
    }
}

impl vstd::std_specs::convert::FromSpecImpl<ApiKey> for ApiKeyResponse {
    open spec fn obeys_from_spec() -> bool {
        true
    }

    open spec fn from_spec(k: ApiKey) -> ApiKeyResponse {
        ApiKeyResponse {
            id: k.id,
            user_id: k.user_id,
            label: k.label,
            enabled: k.enabled,
            created_at: k.created_at,
        }
    }
}

/// A caller as it is told.
#[derive(Debug, Clone, PartialEq, Eq)]
pub struct UserResponse {
    pub id: i64,
    pub name: String,
    pub group_name: Option<String>,
    pub enabled: bool,
    pub created_at: String,
    pub metadata: String,
}

impl From<User> for UserResponse {
    fn from(u: User) -> (r: UserResponse) {
        UserResponse {
            id: u.id,
            name: u.name,
            group_name: u.group_name,
            enabled: u.enabled,
            created_at: u.created_at,
            metadata: u.metadata,
        }
    }
}

impl vstd::std_specs::convert::FromSpecImpl<User> for UserResponse {
    open spec fn obeys_from_spec() -> bool {
        true
    }

    open spec fn from_spec(u: User) -> UserResponse {
        UserResponse {
            id: u.id,
            name: u.name,
            group_name: u.group_name,
            enabled: u.enabled,
            created_at: u.created_at,
            metadata: u.metadata,
        }
    }
}

impl UserResponse {
    pub open spec fn object(self) -> JsonModel {
        let o = with_entry(Seq::empty(), "id"@, JsonModel::Int(self.id as int));
        let o = with_entry(o, "name"@, JsonModel::Str(self.name@));
        let o = with_entry(o, "group_name"@, text_or_null(opt_text(self.group_name)));
        let o = with_entry(o, "enabled"@, JsonModel::Bool(self.enabled));
        let o = with_entry(o, "created_at"@, JsonModel::Str(self.created_at@));
        JsonModel::Obj(with_entry(o, "metadata"@, JsonModel::Str(self.metadata@)))
    }

    pub fn to_json(&self) -> (r: Json)
        ensures
            r.model() == self.object(),
            r.wf(),
    {
        Json::object().with("id", json_int(self.id)).with(
            "name",
            Json::Str(self.name.clone()),
        ).with("group_name", json_text_or_null(&self.group_name)).with(
            "enabled",
            Json::Bool(self.enabled),
        ).with("created_at", Json::Str(self.created_at.clone())).with(
            "metadata",
            Json::Str(self.metadata.clone()),
        )
    }
}

/// `{"ok": true}`.
pub open spec fn ok_object() -> JsonModel {
    JsonModel::Obj(with_entry(Seq::empty(), "ok"@, JsonModel::Bool(true)))
}

pub fn ok_body() -> (r: Json)
    ensures
        r.model() == ok_object(),
        r.wf(),
{
    Json::object().with("ok", Json::Bool(true))
}

// ---------------------------------------------------------------------------
// Logging in
// ---------------------------------------------------------------------------

#[derive(Debug, Clone, PartialEq, Eq)]
pub struct LoginRequest {
    pub name: String,
    pub password: String,
}

pub fn token_body(token: &str) -> (r: Json)
    ensures
        r.model() == JsonModel::Obj(with_entry(Seq::empty(), "token"@, JsonModel::Str(token@))),
        r.wf(),
{
    Json::object().with("token", Json::Str(token.to_owned()))
}

// ---------------------------------------------------------------------------
// Callers
// ---------------------------------------------------------------------------

#[derive(Debug, Clone, PartialEq, Eq)]
pub struct CreateUserRequest {
    pub name: String,
    pub group: Option<String>,
}

/// A fresh key and the hash to store of it.
pub struct IssuedKey {
    pub raw: String,
    pub hash: String,
}

impl IssuedKey {
    pub open spec fn wf(self) -> bool {
        key_shaped(self.raw@) && self.hash@ == token_hash(self.raw@)
    }

    pub fn draw() -> (r: IssuedKey)
        ensures
            r.wf(),
    {
        let raw = new_api_key();
        let hash = hash_token(raw.as_str());
        IssuedKey { raw, hash }
    }
}

/// The audit line of a new caller. The key is not in it.
pub fn created_user(session: &SuperAdminSession, user: &UserResponse) -> (r: NewAuditLogEntry)
    ensures
        r@ == entry_of(
            session.0,
            "user.create"@,
            named("user"@, user.id),
            Some(text_of_json(user.object())),
        ),
{
    let after = user.to_json().to_text();
    entry(&session.0, "user.create", name_of("user", user.id), Some(after))
}

pub fn created_user_body(user: &UserResponse, raw_key: &str) -> (r: Json)
    ensures
        r.model() == JsonModel::Obj(
            with_entry(
                with_entry(Seq::empty(), "user"@, user.object()),
                "api_key"@,
                JsonModel::Str(raw_key@),
            ),
        ),
        r.wf(),
{
    Json::object().with("user", user.to_json()).with("api_key", Json::Str(raw_key.to_owned()))
}

#[derive(Debug, Clone, Copy, PartialEq, Eq)]
pub struct UpdateUserRequest {
    pub enabled: Option<bool>,
}

impl UpdateUserRequest {
    /// What the request changes, as a line of the audit log: nothing where it
    /// does not say.
    pub fn change(&self, session: &SuperAdminSession, id: i64) -> (r: Option<
        (bool, NewAuditLogEntry),
    >)
        ensures
            match self.enabled {
                Some(enabled) => r matches Some((e, line)) && e == enabled && line@ == entry_of(
                    session.0,
                    if enabled {
                        "user.enable"@
                    } else {
                        "user.disable"@
                    },
                    named("user"@, id),
                    None,
                ),
                None => r is None,
            },
    {
        match self.enabled {
            Some(enabled) => {
                let action = if enabled {
                    "user.enable"
                } else {
                    "user.disable"
                };
                Some((enabled, entry(&session.0, action, name_of("user", id), None)))
            },
            None => None,
        }
    }
}

/// Until when an old key is still accepted after a rotation at `at`.
pub open spec fn overlap_end(at: Moment, overlap_mins: i64) -> Option<Seq<char>> {
    match minutes_later(at.secs, overlap_mins as int) {
        Some(secs) => rfc3339_text(secs, at.nanos),
        None => None,
    }
}

pub fn overlap_until(at: &Moment, overlap_mins: i64) -> (r: Option<String>)
    ensures
        opt_text(r) == overlap_end(*at, overlap_mins),
{
    match add_minutes(at.secs, overlap_mins) {
        Some(secs) => {
            let end = Moment { secs, nanos: at.nanos };
            rfc3339(&end)
        },
        None => None,
    }
}

/// The audit line of a rotated key.
pub fn rotated_user_key(session: &SuperAdminSession, id: i64) -> (r: NewAuditLogEntry)
    ensures
        r@ == entry_of(session.0, "user.rotate_key"@, named("user"@, id), None),
{
    entry(&session.0, "user.rotate_key", name_of("user", id), None)
}

pub fn rotated_body(raw_key: &str, old_key_valid_until: &str) -> (r: Json)
    ensures
        r.model() == JsonModel::Obj(
            with_entry(
                with_entry(Seq::empty(), "api_key"@, JsonModel::Str(raw_key@)),
                "old_key_valid_until"@,
                JsonModel::Str(old_key_valid_until@),
            ),
        ),
        r.wf(),
{
    Json::object().with("api_key", Json::Str(raw_key.to_owned())).with(
        "old_key_valid_until",
        Json::Str(old_key_valid_until.to_owned()),
    )
}

// ---------------------------------------------------------------------------
// Budgets
// ---------------------------------------------------------------------------

/// The audit line of a new budget rule, which was written as `rule_json`.
pub fn created_budget(session: &SuperAdminSession, id: i64, rule_json: String) -> (r: NewAuditLogEntry)
    ensures
        r@ == entry_of(session.0, "budget.create"@, named("budget"@, id), Some(rule_json@)),
{
    entry(&session.0, "budget.create", name_of("budget", id), Some(rule_json))
}

/// The audit line of a deleted budget rule.
pub fn deleted_budget(session: &SuperAdminSession, id: i64) -> (r: NewAuditLogEntry)
    ensures
        r@ == entry_of(session.0, "budget.delete"@, named("budget"@, id), None),
{
    entry(&session.0, "budget.delete", name_of("budget", id), None)
}

// ---------------------------------------------------------------------------
// Statistics
// ---------------------------------------------------------------------------

/// From when the statistics add up: the beginning of the epoch.
pub const STATS_SINCE: &'static str = "1970-01-01T00:00:00+00:00";

pub open spec fn stats_line(user: User, total: Usd) -> JsonModel {
    let o = with_entry(Seq::empty(), "user_id"@, JsonModel::Int(user.id as int));
    let o = with_entry(o, "name"@, JsonModel::Str(user.name@));
    JsonModel::Obj(with_entry(o, "total_cost_usd"@, real_or_null(total.bits)))
}

pub open spec fn stats_lines(users: Seq<User>, totals: Seq<Usd>) -> Seq<JsonModel> {
    Seq::new(users.len(), |i: int| stats_line(users[i], totals[i]))
}

/// What each caller has cost in all, in order.
pub fn stats_body(users: &Vec<User>, totals: &Vec<Usd>) -> (r: Json)
    requires
        users@.len() == totals@.len(),
    ensures
        r.model() == JsonModel::Arr(stats_lines(users@, totals@)),
        r.wf(),
{
    let mut out: Vec<Json> = Vec::new();
    let mut i: usize = 0;
    while i < users.len()
        invariant
            i <= users@.len(),
            users@.len() == totals@.len(),
            out@.len() == i,
            forall|k: int|
                0 <= k < i ==> (#[trigger] out@[k]).model() == stats_line(users@[k], totals@[k])
                    && out@[k].wf(),
        decreases users@.len() - i,
    {
        out.push(
            Json::object().with("user_id", json_int(users[i].id)).with(
                "name",
                Json::Str(users[i].name.clone()),
            ).with("total_cost_usd", json_real(totals[i].bits)),
        );
        i += 1;
    }
    proof {
        Json::lemma_array_wf(out);
        assert(list_models(out@) =~= stats_lines(users@, totals@));
    }
    Json::Arr(out)
}

// ---------------------------------------------------------------------------
// Admins
// ---------------------------------------------------------------------------

/// An admin as it is told. The hash of the password is not.
pub open spec fn admin_object(a: AdminUser) -> JsonModel {
    let o = with_entry(Seq::empty(), "id"@, JsonModel::Int(a.id as int));
    let o = with_entry(o, "name"@, JsonModel::Str(a.name@));
    let o = with_entry(o, "role"@, JsonModel::Str(a.role@));
    let o = with_entry(o, "enabled"@, JsonModel::Bool(a.enabled));
    let o = with_entry(o, "created_at"@, JsonModel::Str(a.created_at@));
    JsonModel::Obj(with_entry(o, "last_login_at"@, text_or_null(opt_text(a.last_login_at))))
}

pub open spec fn admin_objects(admins: Seq<AdminUser>) -> Seq<JsonModel> {
    Seq::new(admins.len(), |i: int| admin_object(admins[i]))
}

/// The admins, in order.
pub fn admins_body(admins: &Vec<AdminUser>) -> (r: Json)
    ensures
        r.model() == JsonModel::Arr(admin_objects(admins@)),
        r.wf(),
{
    let mut out: Vec<Json> = Vec::new();
    let mut i: usize = 0;
    while i < admins.len()
        invariant
            i <= admins@.len(),
            out@.len() == i,
            forall|k: int|
                0 <= k < i ==> (#[trigger] out@[k]).model() == admin_object(admins@[k])
                    && out@[k].wf(),
        decreases admins@.len() - i,
    {
        let a = &admins[i];
        out.push(
            Json::object().with("id", json_int(a.id)).with("name", Json::Str(a.name.clone())).with(
                "role",
                Json::Str(a.role.clone()),
            ).with("enabled", Json::Bool(a.enabled)).with(
                "created_at",
                Json::Str(a.created_at.clone()),
            ).with("last_login_at", json_text_or_null(&a.last_login_at)),
        );
        i += 1;
    }
    proof {
        Json::lemma_array_wf(out);
        assert(list_models(out@) =~= admin_objects(admins@));
    }
    Json::Arr(out)
}

#[derive(Debug, Clone, PartialEq, Eq)]
pub struct CreateAdminRequest {
    pub name: String,
    pub password: String,
    pub role: Option<String>,
}

pub const BAD_ROLE: &'static str = "role must be 'superadmin' or 'viewer'";

impl CreateAdminRequest {
    pub open spec fn role_is_known(self) -> bool {
        let role = role_or_viewer(opt_text(self.role));
        role == "superadmin"@ || role == "viewer"@
    }

    /// The admin that is asked for, with the password hashed.
    pub fn new_admin(&self) -> (r: Result<NewAdminUser, ApiError>)
        ensures
            !self.role_is_known() ==> (r matches Err(ApiError::InvalidRequest(m)) && m@ == BAD_ROLE@),
            self.role_is_known() ==> match r {
                Ok(a) => a.name@ == self.name@ && a.role@ == role_or_viewer(opt_text(self.role))
                    && bcrypt_accepts(self.password@, a.password_hash@) == Some(true),
                Err(e) => e == ApiError::Internal,
            },
    {
        match self.check_role() {
            Err(e) => Err(e),
            Ok(_) => self.admin_with(hash_password(self.password.as_str())),
        }
    }

    /// The role that is asked for, where it is one that there is.
    fn check_role(&self) -> (r: Result<String, ApiError>)
        ensures
            match r {
                Ok(role) => self.role_is_known() && role@ == role_or_viewer(opt_text(self.role)),
                Err(e) => !self.role_is_known() && (e matches ApiError::InvalidRequest(m) && m@
                    == BAD_ROLE@),
            },
    {
        let role = chosen_role(&self.role);
        if !same(role.as_str(), "superadmin") && !same(role.as_str(), "viewer") {
            return Err(ApiError::InvalidRequest(BAD_ROLE.to_owned()));
        }
        Ok(role)
    }

    /// The admin that is asked for, with what came of hashing the password.
    pub fn admin_with(&self, hash: Option<String>) -> (r: Result<NewAdminUser, ApiError>)
        ensures
            if !self.role_is_known() {
                r matches Err(ApiError::InvalidRequest(m)) && m@ == BAD_ROLE@
            } else {
                match hash {
                    Some(h) => r matches Ok(a) && a.name@ == self.name@ && a.role@
                        == role_or_viewer(opt_text(self.role)) && a.password_hash@ == h@,
                    None => r == Err::<NewAdminUser, ApiError>(ApiError::Internal),
                }
            },
    {
        let role = match self.check_role() {
            Err(e) => {
                return Err(e);
            },
            Ok(role) => role,
        };
        match hash {
            Some(password_hash) => Ok(NewAdminUser { name: self.name.clone(), password_hash, role }),
            None => Err(ApiError::Internal),
        }
    }
}

pub open spec fn admin_summary(a: AdminUser) -> Seq<(Seq<char>, JsonModel)> {
    let o = with_entry(Seq::empty(), "id"@, JsonModel::Int(a.id as int));
    let o = with_entry(o, "name"@, JsonModel::Str(a.name@));
    with_entry(o, "role"@, JsonModel::Str(a.role@))
}

fn summary(a: &AdminUser) -> (r: Json)
    ensures
        r.model() == JsonModel::Obj(admin_summary(*a)),
        r.wf(),
{
    Json::object().with("id", json_int(a.id)).with("name", Json::Str(a.name.clone())).with(
        "role",
        Json::Str(a.role.clone()),
    )
}

/// The audit line of a new admin.
pub fn created_admin(session: &SuperAdminSession, a: &AdminUser) -> (r: NewAuditLogEntry)
    ensures
        r@ == entry_of(
            session.0,
            "admin.create"@,
            named("admin"@, a.id),
            Some(text_of_json(JsonModel::Obj(admin_summary(*a)))),
        ),
{
    entry(&session.0, "admin.create", name_of("admin", a.id), Some(summary(a).to_text()))
}

pub fn created_admin_body(a: &AdminUser) -> (r: Json)
    ensures
        r.model() == JsonModel::Obj(
            with_entry(admin_summary(*a), "created_at"@, JsonModel::Str(a.created_at@)),
        ),
        r.wf(),
{
    summary(a).with("created_at", Json::Str(a.created_at.clone()))
}

// ---------------------------------------------------------------------------
// Keys
// ---------------------------------------------------------------------------

#[derive(Debug, Clone, PartialEq, Eq)]
pub struct CreateApiKeyRequest {
    pub label: Option<String>,
}

impl CreateApiKeyRequest {
    /// The key to store for a caller, and the key itself.
    pub fn new_key(&self, user_id: i64) -> (r: (NewApiKey, String))
        ensures
            key_shaped(r.1@),
            r.0.key_hash@ == token_hash(r.1@),
            r.0.user_id == user_id,
            opt_text(r.0.label) == opt_text(self.label),
            r.0.expires_at is None,
            r.0.project is None,
    {
        let issued = IssuedKey::draw();
        let key = NewApiKey {
            user_id,
            key_hash: issued.hash,
            label: copy_text(&self.label),
            expires_at: None,
            project: None,
        };
        (key, issued.raw)
    }
}

/// The answer to the request for a key: the one time that it is told.
pub fn created_key_body(created: &ApiKey, raw_key: &str) -> (r: Json)
    ensures
        r.wf(),
        r.model() == ({
            let o = with_entry(Seq::empty(), "id"@, JsonModel::Int(created.id as int));
            let o = with_entry(o, "key"@, JsonModel::Str(raw_key@));
            let o = with_entry(o, "label"@, text_or_null(opt_text(created.label)));
            JsonModel::Obj(with_entry(o, "created_at"@, JsonModel::Str(created.created_at@)))
        }),
{
    Json::object().with("id", json_int(created.id)).with("key", Json::Str(raw_key.to_owned())).with(
        "label",
        json_text_or_null(&created.label),
    ).with("created_at", Json::Str(created.created_at.clone()))
}

/// A label as the audit log has it.
pub open spec fn label_words(label: Option<Seq<char>>) -> Seq<char> {
    match label {
        Some(t) => "label:Some("@ + quoted(t) + ")"@,
        None => "label:None"@,
    }
}

fn label_text(label: &Option<String>) -> (r: String)
    ensures
        r@ == label_words(opt_text(*label)),
{
    match label {
        Some(t) => "label:Some(".to_owned().concat(quote(t.as_str()).as_str()).concat(")"),
        None => "label:None".to_owned(),
    }
}

/// The audit line of a new key.
pub fn created_key(session: &SuperAdminSession, user_id: i64, created: &ApiKey) -> (r: NewAuditLogEntry)
    ensures
        r@ == entry_of(
            session.0,
            "create_api_key"@,
            named("user"@, user_id),
            Some(label_words(opt_text(created.label))),
        ),
{
    entry(
        &session.0,
        "create_api_key",
        name_of("user", user_id),
        Some(label_text(&created.label)),
    )
}

/// The audit line of a revoked key.
pub fn revoked_key(session: &SuperAdminSession, id: i64) -> (r: NewAuditLogEntry)
    ensures
        r@ == entry_of(session.0, "revoke_api_key"@, named("key"@, id), None),
{
    entry(&session.0, "revoke_api_key", name_of("key", id), None)
}

pub fn reset_body(user_id: i64) -> (r: Json)
    ensures
        r.model() == JsonModel::Obj(
            with_entry(
                with_entry(Seq::empty(), "user_id"@, JsonModel::Int(user_id as int)),
                "reset"@,
                JsonModel::Bool(true),
            ),
        ),
        r.wf(),
{
    Json::object().with("user_id", json_int(user_id)).with("reset", Json::Bool(true))
}

/// Users, administrators and what was spent are told by name, in the order of the rows, and
/// without a password.
pub proof fn rows_are_told_by_name(
    u: UserResponse,
    admins: Seq<AdminUser>,
    users: Seq<User>,
    totals: Seq<Usd>,
    i: int,
)
    ensures
        u.object().at("id"@) == JsonModel::Int(u.id as int),
        u.object().at("name"@) == JsonModel::Str(u.name@),
        u.object().at("group_name"@) == match u.group_name {
            Some(t) => JsonModel::Str(t@),
            None => JsonModel::Null,
        },
        u.object().at("enabled"@) == JsonModel::Bool(u.enabled),
        u.object().at("created_at"@) == JsonModel::Str(u.created_at@),
        u.object().at("metadata"@) == JsonModel::Str(u.metadata@),
        admin_objects(admins).len() == admins.len(),
        0 <= i < admins.len() ==> {
            let a = admin_objects(admins)[i];
            &&& a.at("id"@) == JsonModel::Int(admins[i].id as int)
            &&& a.at("name"@) == JsonModel::Str(admins[i].name@)
            &&& a.at("role"@) == JsonModel::Str(admins[i].role@)
            &&& a.at("enabled"@) == JsonModel::Bool(admins[i].enabled)
            &&& a.at("created_at"@) == JsonModel::Str(admins[i].created_at@)
            &&& a.at("last_login_at"@) == text_or_null(opt_text(admins[i].last_login_at))
            &&& a.field("password_hash"@) is None
        },
        stats_lines(users, totals).len() == users.len(),
        0 <= i < users.len() ==> {
            let s = stats_lines(users, totals)[i];
            &&& s.at("user_id"@) == JsonModel::Int(users[i].id as int)
            &&& s.at("name"@) == JsonModel::Str(users[i].name@)
            &&& s.at("total_cost_usd"@) == real_or_null(totals[i].bits)
        },
{
    broadcast use {
        crate::ordered::entries_are_found,
        crate::ordered::nothing_is_found_in_nothing,
    };

    reveal_strlit("id");
    reveal_strlit("name");
    reveal_strlit("group_name");
    reveal_strlit("enabled");
    reveal_strlit("created_at");
    reveal_strlit("metadata");
    reveal_strlit("role");
    reveal_strlit("last_login_at");
    reveal_strlit("password_hash");
    reveal_strlit("user_id");
    reveal_strlit("total_cost_usd");
    assert("id"@.len() == 2);
    assert("name"@.len() == 4 && "name"@[0] == 'n');
    assert("group_name"@.len() == 10 && "group_name"@[0] == 'g');
    assert("enabled"@.len() == 7 && "enabled"@[0] == 'e');
    assert("created_at"@.len() == 10 && "created_at"@[0] == 'c');
    assert("metadata"@.len() == 8);
    assert("role"@.len() == 4 && "role"@[0] == 'r');
    assert("last_login_at"@.len() == 13 && "last_login_at"@[0] == 'l');
    assert("password_hash"@.len() == 13 && "password_hash"@[0] == 'p');
    assert("user_id"@.len() == 7 && "user_id"@[0] == 'u');
    assert("total_cost_usd"@.len() == 14);
}

/// A new administrator is told by name; a key is issued with the hash it is stored under, and
/// the old one holds for as many minutes as were asked for.
pub proof fn what_is_issued_is_told(a: AdminUser, k: IssuedKey, at: Moment, mins: i64, end: i64, r: CreateAdminRequest)
    ensures
        JsonModel::Obj(admin_summary(a)).at("id"@) == JsonModel::Int(a.id as int),
        JsonModel::Obj(admin_summary(a)).at("name"@) == JsonModel::Str(a.name@),
        JsonModel::Obj(admin_summary(a)).at("role"@) == JsonModel::Str(a.role@),
        k.wf() ==> key_shaped(k.raw@) && k.hash@ == token_hash(k.raw@),
        end == at.secs + 60 * mins ==> overlap_end(at, mins) == rfc3339_text(end, at.nanos),
        r.role_is_known() <==> role_or_viewer(opt_text(r.role)) == "superadmin"@ || role_or_viewer(
            opt_text(r.role),
        ) == "viewer"@,
        label_words(None) == "label:None"@,
        label_words(Some(a.name@)) == "label:Some("@ + quoted(a.name@) + ")"@,
        ok_object().at("ok"@) == JsonModel::Bool(true),
{
    broadcast use {
        crate::ordered::entries_are_found,
        crate::ordered::nothing_is_found_in_nothing,
    };

    reveal_strlit("id");
    reveal_strlit("name");
    reveal_strlit("role");
    reveal_strlit("ok");
    assert("id"@.len() == 2 && "id"@[0] == 'i');
    assert("name"@.len() == 4 && "name"@[0] == 'n');
    assert("role"@.len() == 4 && "role"@[0] == 'r');
    assert("ok"@.len() == 2 && "ok"@[0] == 'o');
}

} // verus!
