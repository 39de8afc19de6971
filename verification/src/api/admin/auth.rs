//! Sessions of admins: signed tokens, and who may do what with one.

use crate::api::auth::{bearer_of, bearer_token};
use crate::api::error::ApiError;
use crate::api::headers::{header, header_text};
use crate::clock::{add_minutes, minutes_later};
use crate::codec::{bcrypt_accepts, verify_password};
use crate::json::{json_int, value_model, Json, JsonModel};
use crate::ordered::{lemma_lookup_with_entry, with_entry};
use crate::records::AdminUser;
use crate::text::{after_prefix, has_prefix, opt_text, pieces, same, split, texts, trim, trimmed};
use axum::http::{HeaderMap, HeaderValue};
use vstd::prelude::*;

verus! {

/// What a session token says.
#[derive(Debug, Clone, PartialEq, Eq)]
pub struct AdminClaims {
    pub sub: i64,
    pub name: String,
    pub role: String,
    /// When the session ends, in seconds since the epoch.
    pub exp: usize,
}

pub struct ClaimsModel {
    pub sub: i64,
    pub name: Seq<char>,
    pub role: Seq<char>,
    pub exp: usize,
}

impl View for AdminClaims {
    type V = ClaimsModel;

    open spec fn view(&self) -> ClaimsModel {
        ClaimsModel { sub: self.sub, name: self.name@, role: self.role@, exp: self.exp }
    }
}

/// The role that may change things.
pub const SUPERADMIN: &'static str = "superadmin";

// ---------------------------------------------------------------------------
// Tokens
// ---------------------------------------------------------------------------

/// The claims with which `jsonwebtoken::decode` opens a token under a secret for
/// as long as they last: its HS256 signature is right, it says when it ends, and
/// it names no audience. None where any of this fails, or the token is malformed.
pub uninterp spec fn jwt_claims(token: Seq<char>, secret: Seq<char>) -> Option<JsonModel>;

/// Whether opening a token with these claims comes out as `opened` where whatever
/// ended before `limit` is over. Nothing is said of an end that is not a whole
/// number.
pub open spec fn opens(claims: Option<JsonModel>, limit: u64, opened: bool) -> bool {
    match claims {
        Some(m) => match m.at("exp"@).unsigned() {
            Some(end) => opened == (limit <= end),
            None => true,
        },
        None => !opened,
    }
}

/// `jsonwebtoken::encode` with the default header (HS256) and a secret, which has
/// no way to fail on the claims of a session: the token carries them, and its
/// signature is right under the secret it was made with. Nothing is said of
/// claims of another shape.
#[verifier::external_body]
fn sign_token(claims: &serde_json::Value, secret: &str) -> (r: Option<String>)
    ensures
        match r {
            Some(t) => of_session(value_model(*claims)) ==> jwt_claims(t@, secret@) == Some(
                value_model(*claims),
            ),
            None => !of_session(value_model(*claims)),
        },
{
    jsonwebtoken::encode(
        &jsonwebtoken::Header::default(),
        claims,
        &jsonwebtoken::EncodingKey::from_secret(secret.as_bytes()),
    ).ok()
}

/// `jsonwebtoken::decode` for HS256 with expiry checked: what it accepts are the
/// claims of the token, and of the tokens that have claims it refuses only those
/// that are over. The limit is a minute before the clock's time; of the clock
/// nothing is known.
#[verifier::external_body]
fn open_token(token: &str, secret: &str) -> (r: Option<serde_json::Value>)
    ensures
        r matches Some(v) ==> jwt_claims(token@, secret@) == Some(value_model(v)),
        exists|limit: u64| #[trigger] opens(jwt_claims(token@, secret@), limit, r is Some),
{
    jsonwebtoken::decode::<serde_json::Value>(
        token,
        &jsonwebtoken::DecodingKey::from_secret(secret.as_bytes()),
        &jsonwebtoken::Validation::new(jsonwebtoken::Algorithm::HS256),
    ).ok().map(|data| data.claims)
}

/// Claims as a JSON object.
pub open spec fn claims_object(c: ClaimsModel) -> JsonModel {
    let o = with_entry(Seq::empty(), "sub"@, JsonModel::Int(c.sub as int));
    let o = with_entry(o, "name"@, JsonModel::Str(c.name));
    let o = with_entry(o, "role"@, JsonModel::Str(c.role));
    JsonModel::Obj(with_entry(o, "exp"@, JsonModel::Int(c.exp as int)))
}

/// The claims that a JSON object makes: all four, each of its kind.
pub open spec fn claims_in(m: JsonModel) -> Option<ClaimsModel> {
    match (
        m.at("sub"@).signed(),
        m.at("name"@).text(),
        m.at("role"@).text(),
        m.at("exp"@).unsigned(),
    ) {
        (Some(sub), Some(name), Some(role), Some(exp)) => if exp <= usize::MAX {
            Some(ClaimsModel { sub, name, role, exp: exp as usize })
        } else {
            None
        },
        _ => None,
    }
}

/// Whether a document is the claims of a session and nothing else.
pub open spec fn of_session(m: JsonModel) -> bool {
    claims_in(m) matches Some(c) && m == claims_object(c)
}

pub open spec fn opt_claims(c: Option<AdminClaims>) -> Option<ClaimsModel> {
    match c {
        Some(c) => Some(c@),
        None => None,
    }
}

fn member_str(j: &Json, key: &str) -> (r: Option<String>)
    ensures
        opt_text(r) == j.model().at(key@).text(),
{
    match j.get(key) {
        Some(v) => match v.as_str() {
            Some(s) => Some(s.to_owned()),
            None => None,
        },
        None => None,
    }
}

/// Reads claims from the payload of a token.
pub fn claims_from(j: &Json) -> (r: Option<AdminClaims>)
    ensures
        opt_claims(r) == claims_in(j.model()),
{
    let sub: i64 = match j.get("sub") {
        Some(v) => match v.as_i64() {
            Some(n) => n,
            None => {
                return None;
            },
        },
        None => {
            return None;
        },
    };
    let name = match member_str(j, "name") {
        Some(s) => s,
        None => {
            return None;
        },
    };
    let role = match member_str(j, "role") {
        Some(s) => s,
        None => {
            return None;
        },
    };
    let exp: u64 = match j.get("exp") {
        Some(v) => match v.as_u64() {
            Some(n) => n,
            None => {
                return None;
            },
        },
        None => {
            return None;
        },
    };
    if exp > usize::MAX as u64 {
        return None;
    }
    Some(AdminClaims { sub, name, role, exp: exp as usize })
}

/// Issues a session token.
pub fn issue_jwt(claims: &AdminClaims, secret: &str) -> (r: Option<String>)
    ensures
        r matches Some(t) && jwt_claims(t@, secret@) == Some(claims_object(claims@)),
{
    let j = Json::object().with("sub", json_int(claims.sub)).with(
        "name",
        Json::Str(claims.name.clone()),
    ).with("role", Json::Str(claims.role.clone())).with("exp", Json::PosInt(claims.exp as u64));
    proof {
        issued_claims_come_back(claims@);
    }
    let v = j.to_value();
    sign_token(&v, secret)
}

/// The session that a token's claims open where whatever ended before `limit` is
/// over.
pub open spec fn session_at(claims: Option<JsonModel>, limit: u64) -> Option<ClaimsModel> {
    match claims {
        Some(m) => match claims_in(m) {
            Some(c) => if limit <= c.exp {
                Some(c)
            } else {
                None
            },
            None => None,
        },
        None => None,
    }
}

/// Opens a session token: one whose claims are those of a session, and last. Until
/// when they must last is the clock's to say.
pub fn verify_jwt(token: &str, secret: &str) -> (r: Option<AdminClaims>)
    ensures
        exists|limit: u64|
            opt_claims(r) == #[trigger] session_at(jwt_claims(token@, secret@), limit),
{
    let ghost claims = jwt_claims(token@, secret@);
    match open_token(token, secret) {
        Some(v) => {
            let ghost limit = choose|limit: u64| #[trigger] opens(claims, limit, true);
            let j = Json::from_value(&v);
            let r = claims_from(&j);
            assert(opt_claims(r) == session_at(claims, limit));
            r
        },
        None => {
            let ghost limit = choose|limit: u64| #[trigger] opens(claims, limit, false);
            assert(opt_claims(None) == session_at(claims, limit));
            None
        },
    }
}

// ---------------------------------------------------------------------------
// Sessions
// ---------------------------------------------------------------------------

#[derive(Debug, Clone, PartialEq, Eq)]
pub struct AdminSession(pub AdminClaims);

/// A session that may change things.
#[derive(Debug, Clone, PartialEq, Eq)]
pub struct SuperAdminSession(pub AdminClaims);

/// The first of some cookies that starts with `prefix`: what follows it.
pub open spec fn cookie_among(cookies: Seq<Seq<char>>, prefix: Seq<char>) -> Option<Seq<char>>
    decreases cookies.len(),
{
    if cookies.len() == 0 {
        None
    } else if has_prefix(trimmed(cookies[0]), prefix) {
        Some(trimmed(cookies[0]).skip(prefix.len() as int))
    } else {
        cookie_among(cookies.drop_first(), prefix)
    }
}

/// The cookie of a request that starts with `prefix`.
pub open spec fn cookie_of(h: HeaderMap<HeaderValue>, prefix: Seq<char>) -> Option<Seq<char>> {
    match header(h, "Cookie"@) {
        Some(v) => cookie_among(pieces(v, ';', ';'), prefix),
        None => None,
    }
}

pub fn cookie(headers: &HeaderMap<HeaderValue>, prefix: &str) -> (r: Option<String>)
    ensures
        opt_text(r) == cookie_of(*headers, prefix@),
{
    let value = match header_text(headers, "Cookie") {
        Some(v) => v,
        None => {
            return None;
        },
    };
    let parts = split(value.as_str(), ';', ';');
    let ghost all = pieces(value@, ';', ';');
    assert(all.skip(0) =~= all);
    let mut i: usize = 0;
    while i < parts.len()
        invariant
            i <= parts@.len(),
            texts(parts@) == all,
            cookie_of(*headers, prefix@) == cookie_among(all, prefix@),
            cookie_among(all.skip(i as int), prefix@) == cookie_among(all, prefix@),
        decreases parts@.len() - i,
    {
        assert(all.skip(i as int)[0] == parts@[i as int]@);
        if let Some(v) = after_prefix(trim(parts[i].as_str()), prefix) {
            return Some(v.to_owned());
        }
        assert(all.skip(i as int).drop_first() =~= all.skip(i + 1));
        i += 1;
    }
    None
}

/// The token of an API request: its bearer token, or else its cookie.
pub open spec fn admin_token_of(h: HeaderMap<HeaderValue>) -> Option<Seq<char>> {
    match bearer_of(h) {
        Some(t) => Some(t),
        None => cookie_of(h, "admin_token="@),
    }
}

pub fn admin_token(headers: &HeaderMap<HeaderValue>) -> (r: Option<String>)
    ensures
        opt_text(r) == admin_token_of(*headers),
{
    match bearer_token(headers) {
        Some(t) => Some(t),
        None => cookie(headers, "admin_token="),
    }
}

/// The session that a token opens, if there is one, where whatever ended before
/// `limit` is over.
pub open spec fn session_of(token: Option<Seq<char>>, secret: Seq<char>, limit: u64) -> Option<
    ClaimsModel,
> {
    match token {
        Some(t) => session_at(jwt_claims(t, secret), limit),
        None => None,
    }
}

/// Opens the session of an API request.
pub fn admin_session(headers: &HeaderMap<HeaderValue>, secret: &str) -> (r: Result<
    AdminSession,
    ApiError,
>)
    ensures
        exists|limit: u64|
            match #[trigger] session_of(admin_token_of(*headers), secret@, limit) {
                Some(c) => r matches Ok(s) && s.0@ == c,
                None => r == Err::<AdminSession, ApiError>(ApiError::Unauthorized),
            },
{
    let token = match admin_token(headers) {
        Some(t) => t,
        None => {
            assert(session_of(admin_token_of(*headers), secret@, 0) is None);
            return Err(ApiError::Unauthorized);
        },
    };
    let opened = verify_jwt(token.as_str(), secret);
    let ghost limit = choose|limit: u64|
        opt_claims(opened) == #[trigger] session_at(jwt_claims(token@, secret@), limit);
    assert(session_of(admin_token_of(*headers), secret@, limit) == opt_claims(opened));
    match opened {
        Some(claims) => Ok(AdminSession(claims)),
        None => Err(ApiError::Unauthorized),
    }
}

/// Lets only superadmins through.
pub fn require_superadmin(session: AdminSession) -> (r: Result<SuperAdminSession, ApiError>)
    ensures
        session.0.role@ == SUPERADMIN@ ==> r == Ok::<SuperAdminSession, ApiError>(
            SuperAdminSession(session.0),
        ),
        session.0.role@ != SUPERADMIN@ ==> r == Err::<SuperAdminSession, ApiError>(
            ApiError::Forbidden,
        ),
{
    if same(session.0.role.as_str(), SUPERADMIN) {
        Ok(SuperAdminSession(session.0))
    } else {
        Err(ApiError::Forbidden)
    }
}

// ---------------------------------------------------------------------------
// Logging in
// ---------------------------------------------------------------------------

/// Why nobody was logged in.
#[derive(Debug, Clone, Copy, PartialEq, Eq, Structural)]
pub enum LoginRefusal {
    Internal,
    InvalidCredentials,
    Disabled,
}

impl LoginRefusal {
    /// What the login page says.
    pub fn text(&self) -> (r: &'static str)
        ensures
            r@ == match self {
                LoginRefusal::Internal => "internal error"@,
                LoginRefusal::InvalidCredentials => "invalid credentials"@,
                LoginRefusal::Disabled => "account disabled"@,
            },
    {
        match self {
            LoginRefusal::Internal => "internal error",
            LoginRefusal::InvalidCredentials => "invalid credentials",
            LoginRefusal::Disabled => "account disabled",
        }
    }

    /// What the API answers: an account that is off looks like one that is not
    /// there.
    pub fn api_error(&self) -> (r: ApiError)
        ensures
            r == match self {
                LoginRefusal::Internal => ApiError::Internal,
                _ => ApiError::Unauthorized,
            },
    {
        match self {
            LoginRefusal::Internal => ApiError::Internal,
            _ => ApiError::Unauthorized,
        }
    }
}

/// Whether the account that was looked up, if it was found, refuses a password.
pub open spec fn login_refusal(
    found: Result<Option<AdminUser>, ()>,
    password: Seq<char>,
) -> Option<LoginRefusal> {
    match found {
        Err(_) => Some(LoginRefusal::Internal),
        Ok(None) => Some(LoginRefusal::InvalidCredentials),
        Ok(Some(admin)) => if !admin.enabled {
            Some(LoginRefusal::Disabled)
        } else {
            match bcrypt_accepts(password, admin.password_hash@) {
                None => Some(LoginRefusal::Internal),
                Some(false) => Some(LoginRefusal::InvalidCredentials),
                Some(true) => None,
            }
        },
    }
}

/// The claims of an admin whose session ends at `end`.
pub open spec fn claims_for(admin: AdminUser, end: i64) -> ClaimsModel {
    ClaimsModel { sub: admin.id, name: admin.name@, role: admin.role@, exp: end as usize }
}

/// Issues a token to an admin, for a session of some minutes from `secs` on.
pub fn open_session(admin: &AdminUser, secs: i64, expiry_mins: i64, secret: &str) -> (r: Option<
    String,
>)
    ensures
        match minutes_later(secs, expiry_mins as int) {
            Some(end) => r matches Some(t) && jwt_claims(t@, secret@) == Some(
                claims_object(claims_for(*admin, end)),
            ),
            None => r is None,
        },
{
    match add_minutes(secs, expiry_mins) {
        Some(end) => {
            let claims = AdminClaims {
                sub: admin.id,
                name: admin.name.clone(),
                role: admin.role.clone(),
                exp: #[verifier::truncate] (end as usize),
            };
            issue_jwt(&claims, secret)
        },
        None => None,
    }
}

/// Logs an admin in who has been looked up by name: the token of the session.
pub fn login(
    found: &Result<Option<AdminUser>, ()>,
    password: &str,
    secs: i64,
    expiry_mins: i64,
    secret: &str,
) -> (r: Result<String, LoginRefusal>)
    ensures
        match login_refusal(*found, password@) {
            Some(refusal) => r == Err::<String, LoginRefusal>(refusal),
            None => match minutes_later(secs, expiry_mins as int) {
                Some(end) => r matches Ok(t) && *found matches Ok(Some(admin)) && jwt_claims(
                    t@,
                    secret@,
                ) == Some(claims_object(claims_for(admin, end))),
                None => r == Err::<String, LoginRefusal>(LoginRefusal::Internal),
            },
        },
{
    let admin = match found {
        Err(_) => {
            return Err(LoginRefusal::Internal);
        },
        Ok(None) => {
            return Err(LoginRefusal::InvalidCredentials);
        },
        Ok(Some(admin)) => admin,
    };
    if !admin.enabled {
        return Err(LoginRefusal::Disabled);
    }
    match verify_password(password, admin.password_hash.as_str()) {
        None => {
            return Err(LoginRefusal::Internal);
        },
        Some(valid) => {
            if !valid {
                return Err(LoginRefusal::InvalidCredentials);
            }
        },
    }
    match open_session(admin, secs, expiry_mins, secret) {
        Some(t) => Ok(t),
        None => Err(LoginRefusal::Internal),
    }
}

// ---------------------------------------------------------------------------
// Laws
// ---------------------------------------------------------------------------

/// A token that was issued, and is accepted, says what it was issued for.
pub proof fn issued_claims_come_back(c: ClaimsModel)
    ensures
        claims_in(claims_object(c)) == Some(c),
{
    let e0 = Seq::<(Seq<char>, JsonModel)>::empty();
    let e1 = with_entry(e0, "sub"@, JsonModel::Int(c.sub as int));
    let e2 = with_entry(e1, "name"@, JsonModel::Str(c.name));
    let e3 = with_entry(e2, "role"@, JsonModel::Str(c.role));
    let exp = JsonModel::Int(c.exp as int);
    reveal_strlit("sub");
    reveal_strlit("name");
    reveal_strlit("role");
    reveal_strlit("exp");
    assert("sub"@ != "name"@ && "sub"@ != "role"@ && "sub"@ != "exp"@) by {
        assert("sub"@[0] == 's' && "name"@[0] == 'n' && "role"@[0] == 'r' && "exp"@[0] == 'e');
    }
    assert("name"@ != "role"@ && "name"@ != "exp"@ && "role"@ != "exp"@) by {
        assert("name"@[0] == 'n' && "role"@[0] == 'r' && "exp"@[0] == 'e');
    }
    lemma_lookup_with_entry(e0, "sub"@, JsonModel::Int(c.sub as int), "sub"@);
    lemma_lookup_with_entry(e1, "name"@, JsonModel::Str(c.name), "sub"@);
    lemma_lookup_with_entry(e1, "name"@, JsonModel::Str(c.name), "name"@);
    lemma_lookup_with_entry(e2, "role"@, JsonModel::Str(c.role), "sub"@);
    lemma_lookup_with_entry(e2, "role"@, JsonModel::Str(c.role), "name"@);
    lemma_lookup_with_entry(e2, "role"@, JsonModel::Str(c.role), "role"@);
    lemma_lookup_with_entry(e3, "exp"@, exp, "sub"@);
    lemma_lookup_with_entry(e3, "exp"@, exp, "name"@);
    lemma_lookup_with_entry(e3, "exp"@, exp, "role"@);
    lemma_lookup_with_entry(e3, "exp"@, exp, "exp"@);
}

/// No token opens under a secret to other claims than those it was issued with.
pub proof fn tokens_cannot_change_hands(
    token: Seq<char>,
    secret: Seq<char>,
    issued: ClaimsModel,
    opened: ClaimsModel,
)
    requires
        jwt_claims(token, secret) == Some(claims_object(issued)),
        jwt_claims(token, secret) matches Some(m) && claims_in(m) == Some(opened),
    ensures
        opened == issued,
{
    issued_claims_come_back(issued);
}

/// What a session says is read by name, and nothing is read where a member is missing or of
/// another kind.
pub proof fn claims_are_read_by_name(m: JsonModel, c: ClaimsModel)
    requires
        claims_in(m) == Some(c),
    ensures
        m.at("sub"@).signed() == Some(c.sub),
        m.at("name"@) == JsonModel::Str(c.name),
        m.at("role"@) == JsonModel::Str(c.role),
        m.at("exp"@).unsigned() == Some(c.exp as u64),
{
}

/// A session says who was let in: the administrator's number, name and role, and when it ends.
pub proof fn sessions_say_who_was_let_in(c: ClaimsModel, a: AdminUser, end: i64)
    ensures
        claims_object(c).at("sub"@) == JsonModel::Int(c.sub as int),
        claims_object(c).at("name"@) == JsonModel::Str(c.name),
        claims_object(c).at("role"@) == JsonModel::Str(c.role),
        claims_object(c).at("exp"@) == JsonModel::Int(c.exp as int),
        claims_for(a, end).sub == a.id && claims_for(a, end).name == a.name@ && claims_for(a, end).role
            == a.role@,
        0 <= end <= usize::MAX ==> claims_for(a, end).exp == end,
{
    broadcast use {
        crate::ordered::entries_are_found,
        crate::ordered::nothing_is_found_in_nothing,
    };

    reveal_strlit("sub");
    reveal_strlit("name");
    reveal_strlit("role");
    reveal_strlit("exp");
    assert("sub"@.len() == 3 && "sub"@[0] == 's');
    assert("name"@.len() == 4 && "name"@[0] == 'n');
    assert("role"@.len() == 4 && "role"@[0] == 'r');
    assert("exp"@.len() == 3 && "exp"@[0] == 'e');
}

/// A session holds up to its end and not beyond it; without a token there is none.
pub proof fn sessions_hold_until_their_end(m: JsonModel, c: ClaimsModel, limit: u64, t: Seq<char>, secret: Seq<char>)
    ensures
        claims_in(m) == Some(c) && limit <= c.exp ==> session_at(Some(m), limit) == Some(c),
        claims_in(m) == Some(c) && limit > c.exp ==> session_at(Some(m), limit) is None,
        claims_in(m) is None ==> session_at(Some(m), limit) is None,
        session_at(None, limit) is None,
        session_of(None, secret, limit) is None,
        session_of(Some(t), secret, limit) == session_at(jwt_claims(t, secret), limit),
{
}

/// Someone is let in with their own password while their account is enabled, and told nothing
/// of whether it was the name or the password that was wrong.
pub proof fn only_the_password_lets_in(a: AdminUser, password: Seq<char>)
    ensures
        login_refusal(Ok(Some(a)), password) is None <==> a.enabled && bcrypt_accepts(
            password,
            a.password_hash@,
        ) == Some(true),
        login_refusal(Ok(None), password) == Some(LoginRefusal::InvalidCredentials),
        a.enabled && bcrypt_accepts(password, a.password_hash@) == Some(false) ==> login_refusal(
            Ok(Some(a)),
            password,
        ) == Some(LoginRefusal::InvalidCredentials),
        !a.enabled ==> login_refusal(Ok(Some(a)), password) == Some(LoginRefusal::Disabled),
        login_refusal(Err(()), password) == Some(LoginRefusal::Internal),
{
}

/// A cookie is the rest of the first part that begins with its name.
pub proof fn the_first_cookie_counts(cookies: Seq<Seq<char>>, prefix: Seq<char>, i: int)
    ensures
        0 <= i < cookies.len() && has_prefix(trimmed(cookies[i]), prefix) && (forall|j: int|
            0 <= j < i ==> !has_prefix(trimmed(#[trigger] cookies[j]), prefix)) ==> cookie_among(
            cookies,
            prefix,
        ) == Some(trimmed(cookies[i]).skip(prefix.len() as int)),
        (forall|j: int|
            0 <= j < cookies.len() ==> !has_prefix(trimmed(#[trigger] cookies[j]), prefix))
            ==> cookie_among(cookies, prefix) is None,
    decreases cookies.len(),
{
    if cookies.len() > 0 {
        let rest = cookies.drop_first();
        the_first_cookie_counts(rest, prefix, i - 1);
        assert(forall|j: int| 0 <= j < rest.len() ==> #[trigger] rest[j] == cookies[j + 1]);
        if 0 < i < cookies.len() && (forall|j: int|
            0 <= j < i ==> !has_prefix(trimmed(#[trigger] cookies[j]), prefix)) {
            assert(!has_prefix(trimmed(cookies[0]), prefix));
            assert forall|j: int| 0 <= j < i - 1 implies !has_prefix(
                trimmed(#[trigger] rest[j]),
                prefix,
            ) by {
                assert(rest[j] == cookies[j + 1]);
            }
        }
        if forall|j: int|
            0 <= j < cookies.len() ==> !has_prefix(trimmed(#[trigger] cookies[j]), prefix) {
            assert(!has_prefix(trimmed(cookies[0]), prefix));
        }
    }
}

/// The token of a request is the one it bears, and the cookie's only where it bears none.
pub proof fn borne_tokens_go_first(h: HeaderMap<HeaderValue>, t: Seq<char>)
    ensures
        bearer_of(h) == Some(t) ==> admin_token_of(h) == Some(t),
        bearer_of(h) is None ==> admin_token_of(h) == cookie_of(h, "admin_token="@),
        header(h, "Cookie"@) is None ==> cookie_of(h, t) is None,
{
}

/// What a session says is shown part by part.
pub proof fn claims_show_their_parts(c: AdminClaims)
    ensures
        c@.sub == c.sub,
        c@.name == c.name@,
        c@.role == c.role@,
        c@.exp == c.exp,
{
}

} // verus!
