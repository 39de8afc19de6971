//! Logging in through an OpenID Connect provider.
//!
//! The browser is sent to the provider with a state token and a challenge, and
//! comes back with the state and a code. The state can be used once, within five
//! minutes; the code is exchanged, together with the verifier that the challenge
//! was made from, for a signed token that says who it is.

use crate::api::admin::auth::{
    claims_for, claims_object, jwt_claims, open_session, opens, ClaimsModel,
};
use crate::api::admin::dashboard::{session_cookie, SESSION_COOKIE};
use crate::clock::minutes_later;
use crate::codec::{base64_url, base64_url_text, random_bytes, sha256, sha256_of};
use crate::json::{value_model, Json, JsonModel};
use crate::records::AdminUser;
use crate::sums::total;
use crate::text::{
    byte_count, byte_len, holds_text, in_one_piece, last_piece, lemma_first_named, opt_text, pairs,
    pieces, same, split, texts, trim_end_char, value_named, without_trailing,
};
use dashmap::DashMap;
use vstd::prelude::*;
use vstd::utf8::encode_utf8;

verus! {

// ---------------------------------------------------------------------------
// Pending logins
// ---------------------------------------------------------------------------

/// How long a login may take, in nanoseconds.
pub const STATE_LIFETIME: u64 = 300_000_000_000;

/// The logins that are under way: by state token, the verifier and the moment
/// at which the login began.
pub type Pending = Map<Seq<char>, (Seq<char>, u64)>;

/// What a map of pending logins holds.
pub uninterp spec fn pending(m: DashMap<String, (String, u64)>) -> Map<Seq<char>, (Seq<char>, u64)>;

/// Whether a login that began at `begun` may still be completed at `now`.
pub open spec fn fresh(begun: u64, now: u64) -> bool {
    now - begun <= STATE_LIFETIME
}

pub fn is_fresh(begun: u64, now: u64) -> (r: bool)
    ensures
        r == fresh(begun, now),
{
    now <= begun || now - begun <= STATE_LIFETIME
}

/// The logins that may still be completed.
pub open spec fn fresh_only(p: Pending, now: u64) -> Pending {
    Map::new(|k: Seq<char>| p.contains_key(k) && fresh(p[k].1, now), |k: Seq<char>| p[k])
}

/// `DashMap::new`: an empty map.
#[verifier::external_body]
fn none_pending() -> (r: DashMap<String, (String, u64)>)
    ensures
        pending(r) =~= map![],
{
    DashMap::new()
}

/// `DashMap::insert`: sets the value of a key and changes nothing else.
#[verifier::external_body]
fn put_pending(m: &mut DashMap<String, (String, u64)>, key: String, value: (String, u64))
    ensures
        pending(*final(m)) == pending(*old(m)).insert(key@, (value.0@, value.1)),
{
    m.insert(key, value);
}

/// `DashMap::remove`: takes a key out, changes nothing else, and gives back what
/// it held.
#[verifier::external_body]
fn take_pending(m: &mut DashMap<String, (String, u64)>, key: &str) -> (r: Option<(String, u64)>)
    ensures
        pending(*final(m)) == pending(*old(m)).remove(key@),
        match r {
            Some(v) => pending(*old(m)).contains_key(key@) && pending(*old(m))[key@] == (v.0@, v.1),
            None => !pending(*old(m)).contains_key(key@),
        },
{
    m.remove(key).map(|e| e.1)
}

/// `DashMap::retain`: keeps the entries that are fresh, as they are, and no
/// others.
#[verifier::external_body]
fn keep_fresh(m: &mut DashMap<String, (String, u64)>, now: u64)
    ensures
        pending(*final(m)) == fresh_only(pending(*old(m)), now),
{
    m.retain(|_, v| is_fresh(v.1, now));
}

/// The logins that are under way. The caller says what time it is, in
/// nanoseconds from a fixed beginning.
pub struct OidcStateStore {
    map: DashMap<String, (String, u64)>,
}

impl OidcStateStore {
    pub closed spec fn logins(&self) -> Pending {
        pending(self.map)
    }

    pub fn new() -> (r: OidcStateStore)
        ensures
            r.logins() =~= Map::<Seq<char>, (Seq<char>, u64)>::empty(),
    {
        OidcStateStore { map: none_pending() }
    }

    /// Begins a login, and forgets those that took too long.
    pub fn insert(&mut self, state: String, code_verifier: String, now: u64)
        ensures
            final(self).logins() == begun(old(self).logins(), state@, code_verifier@, now),
    {
        keep_fresh(&mut self.map, now);
        put_pending(&mut self.map, state, (code_verifier, now));
    }

    /// Completes a login: its verifier, where it did not take too long. Either
    /// way the state is used up.
    pub fn take(&mut self, state: &str, now: u64) -> (r: Option<String>)
        ensures
            final(self).logins() == old(self).logins().remove(state@),
            opt_text(r) == verifier_of(old(self).logins(), state@, now),
    {
        match take_pending(&mut self.map, state) {
            Some((verifier, begun)) => if is_fresh(begun, now) {
                Some(verifier)
            } else {
                None
            },
            None => None,
        }
    }
}

/// The pending logins after one more.
pub open spec fn begun(p: Pending, state: Seq<char>, verifier: Seq<char>, now: u64) -> Pending {
    fresh_only(p, now).insert(state, (verifier, now))
}

/// The verifier of a login that may be completed.
pub open spec fn verifier_of(p: Pending, state: Seq<char>, now: u64) -> Option<Seq<char>> {
    if p.contains_key(state) && fresh(p[state].1, now) {
        Some(p[state].0)
    } else {
        None
    }
}

// ---------------------------------------------------------------------------
// Proof of possession
// ---------------------------------------------------------------------------

/// The challenge that a verifier answers.
pub open spec fn challenge_of(verifier: Seq<char>) -> Seq<char> {
    base64_url_text(sha256(encode_utf8(verifier)))
}

fn make_challenge(verifier: &str) -> (r: String)
    ensures
        r@ == challenge_of(verifier@),
{
    let digest = sha256_of(verifier);
    base64_url(&digest)
}

/// Whether a text is 32 bytes in URL-safe base64.
pub open spec fn is_secret(s: Seq<char>) -> bool {
    exists|bytes: Seq<u8>| bytes.len() == 32 && s == #[trigger] base64_url_text(bytes)
}

/// A fresh verifier and its challenge.
pub fn generate_pkce_pair() -> (r: (String, String))
    ensures
        is_secret(r.0@),
        r.1@ == challenge_of(r.0@),
{
    let verifier = generate_state();
    let challenge = make_challenge(verifier.as_str());
    (verifier, challenge)
}

/// Whether a verifier answers a challenge.
pub fn verify_pkce_challenge(verifier: &str, challenge: &str) -> (r: bool)
    ensures
        r == (challenge@ == challenge_of(verifier@)),
{
    let expected = make_challenge(verifier);
    same(expected.as_str(), challenge)
}

/// A fresh state token.
pub fn generate_state() -> (r: String)
    ensures
        is_secret(r@),
{
    let bytes = random_bytes();
    let r = base64_url(&bytes);
    assert(is_secret(r@)) by {
        assert(bytes@.len() == 32);
        assert(r@ == base64_url_text(bytes@));
    }
    r
}

// ---------------------------------------------------------------------------
// Who may come in
// ---------------------------------------------------------------------------

/// The domain of an address: what stands between the first and the second `@`.
pub open spec fn domain_of(email: Seq<char>) -> Option<Seq<char>> {
    let parts = pieces(email, '@', '@');
    if parts.len() > 1 {
        Some(parts[1])
    } else {
        None
    }
}

/// Whether an address may come in: it or its domain is on a list, or there are
/// no lists.
pub open spec fn email_permitted(
    email: Seq<char>,
    emails: Seq<Seq<char>>,
    domains: Seq<Seq<char>>,
) -> bool {
    ||| emails.len() == 0 && domains.len() == 0
    ||| emails.contains(email)
    ||| (domain_of(email) matches Some(d) && domains.contains(d))
}

pub fn is_email_allowed(email: &str, allowed_emails: &Vec<String>, allowed_domains: &Vec<String>) -> (r:
    bool)
    ensures
        r == email_permitted(email@, texts(allowed_emails@), texts(allowed_domains@)),
{
    assert(texts(allowed_emails@).len() == allowed_emails@.len());
    assert(texts(allowed_domains@).len() == allowed_domains@.len());
    if allowed_emails.len() == 0 && allowed_domains.len() == 0 {
        return true;
    }
    if holds_text(allowed_emails, email) {
        return true;
    }
    let parts = split(email, '@', '@');
    assert(texts(parts@).len() == parts@.len());
    if parts.len() > 1 {
        assert(texts(parts@)[1] == parts@[1]@);
        if holds_text(allowed_domains, parts[1].as_str()) {
            return true;
        }
    }
    false
}

// ---------------------------------------------------------------------------
// What the provider is asked
// ---------------------------------------------------------------------------

#[derive(Debug, Clone, PartialEq, Eq)]
pub struct OidcDiscovery {
    pub authorization_endpoint: String,
    pub token_endpoint: String,
    pub jwks_uri: String,
}

#[derive(Debug, Clone, PartialEq, Eq)]
pub struct TokenResponse {
    pub id_token: String,
}

#[derive(Debug, Clone, PartialEq, Eq)]
pub struct OidcCallbackQuery {
    pub code: String,
    pub state: String,
}

/// The settings of the provider.
#[derive(Debug, Clone, PartialEq, Eq)]
pub struct OidcConfig {
    pub enabled: bool,
    pub issuer_url: String,
    pub client_id: String,
    pub client_secret: String,
    pub redirect_uri: String,
    pub allowed_emails: Vec<String>,
    pub allowed_domains: Vec<String>,
    pub auto_provision_role: String,
}

/// Where the provider says what it offers.
pub fn discovery_url(issuer_url: &str) -> (r: String)
    ensures
        r@ == without_trailing(issuer_url@, '/') + "/.well-known/openid-configuration"@,
{
    trim_end_char(issuer_url, '/').to_owned().concat("/.well-known/openid-configuration")
}

/// A URL with some pairs added to its query; none where the URL is malformed.
pub uninterp spec fn url_with_query(
    url: Seq<char>,
    query: Seq<(Seq<char>, Seq<char>)>,
) -> Option<Seq<char>>;

pub open spec fn pair_bytes() -> spec_fn((Seq<char>, Seq<char>)) -> int {
    |p: (Seq<char>, Seq<char>)| byte_count(p.0) as int + byte_count(p.1)
}

/// How many bytes a URL and its query may have, so that the whole can be
/// addressed.
pub const MAX_URL_BYTES: usize = 0x1000_0000;

/// `reqwest::Url::parse`, then `query_pairs_mut` and `extend_pairs`: the result
/// depends on the URL and the pairs alone.
#[verifier::external_body]
fn add_query(url: &str, query: &Vec<(&str, &str)>) -> (r: Option<String>)
    requires
        byte_count(url@) <= MAX_URL_BYTES,
        total(pairs(query@), pair_bytes()) <= MAX_URL_BYTES,
    ensures
        match r {
            Some(t) => url_with_query(url@, pairs(query@)) == Some(t@),
            None => url_with_query(url@, pairs(query@)) is None,
        },
{
    let mut url = reqwest::Url::parse(url).ok()?;
    url.query_pairs_mut().extend_pairs(query);
    Some(url.to_string())
}

/// What the provider is told when a login begins.
pub open spec fn authorize_query(
    client_id: Seq<char>,
    redirect_uri: Seq<char>,
    state: Seq<char>,
    challenge: Seq<char>,
) -> Seq<(Seq<char>, Seq<char>)> {
    seq![
        ("response_type"@, "code"@),
        ("client_id"@, client_id),
        ("redirect_uri"@, redirect_uri),
        ("scope"@, "openid email profile"@),
        ("state"@, state),
        ("code_challenge"@, challenge),
        ("code_challenge_method"@, "S256"@),
    ]
}

/// Whether the URL of a login can be addressed.
pub open spec fn login_fits(
    endpoint: Seq<char>,
    client_id: Seq<char>,
    redirect_uri: Seq<char>,
    state: Seq<char>,
    challenge: Seq<char>,
) -> bool {
    byte_count(endpoint) <= MAX_URL_BYTES && total(
        authorize_query(client_id, redirect_uri, state, challenge),
        pair_bytes(),
    ) <= MAX_URL_BYTES
}

fn bytes_of(query: &Vec<(&str, &str)>) -> (r: Option<usize>)
    ensures
        match r {
            Some(n) => n == total(pairs(query@), pair_bytes()),
            None => total(pairs(query@), pair_bytes()) > usize::MAX,
        },
{
    let ghost all = pairs(query@);
    let mut sum: usize = 0;
    let mut i: usize = 0;
    while i < query.len()
        invariant
            i <= query@.len(),
            all == pairs(query@),
            sum == total(all.take(i as int), pair_bytes()),
        decreases query@.len() - i,
    {
        proof {
            crate::sums::lemma_total_step(all, pair_bytes(), i as int);
            lemma_bytes_grow(all, i + 1);
        }
        let a: usize = byte_len(query[i].0);
        let b: usize = byte_len(query[i].1);
        match a.checked_add(b) {
            Some(n) => match sum.checked_add(n) {
                Some(m) => {
                    sum = m;
                },
                None => {
                    return None;
                },
            },
            None => {
                return None;
            },
        }
        i += 1;
    }
    assert(all.take(all.len() as int) =~= all);
    Some(sum)
}

proof fn lemma_bytes_grow(s: Seq<(Seq<char>, Seq<char>)>, i: int)
    requires
        0 <= i <= s.len(),
    ensures
        0 <= total(s.take(i), pair_bytes()) <= total(s, pair_bytes()),
    decreases s.len(),
{
    if s.len() > 0 {
        if i == s.len() {
            assert(s.take(i) =~= s);
            lemma_bytes_grow(s.drop_last(), s.len() - 1);
            assert(s.drop_last().take(s.len() - 1) =~= s.drop_last());
        } else {
            lemma_bytes_grow(s.drop_last(), i);
            assert(s.drop_last().take(i) =~= s.take(i));
        }
    }
}

/// Checks whether the URL of a login can be addressed.
pub fn can_address(
    endpoint: &str,
    client_id: &str,
    redirect_uri: &str,
    state: &str,
    challenge: &str,
) -> (r: bool)
    ensures
        r == login_fits(endpoint@, client_id@, redirect_uri@, state@, challenge@),
{
    let query = vec![
        ("response_type", "code"),
        ("client_id", client_id),
        ("redirect_uri", redirect_uri),
        ("scope", "openid email profile"),
        ("state", state),
        ("code_challenge", challenge),
        ("code_challenge_method", "S256"),
    ];
    assert(pairs(query@) =~= authorize_query(client_id@, redirect_uri@, state@, challenge@));
    match bytes_of(&query) {
        Some(n) => n <= MAX_URL_BYTES && byte_len(endpoint) <= MAX_URL_BYTES,
        None => false,
    }
}

/// Where the browser is sent when a login begins; nowhere where the provider's
/// endpoint is no URL.
pub fn authorize_url(
    endpoint: &str,
    client_id: &str,
    redirect_uri: &str,
    state: &str,
    challenge: &str,
) -> (r: Option<String>)
    requires
        login_fits(endpoint@, client_id@, redirect_uri@, state@, challenge@),
    ensures
        opt_text(r) == url_with_query(
            endpoint@,
            authorize_query(client_id@, redirect_uri@, state@, challenge@),
        ),
{
    let query = vec![
        ("response_type", "code"),
        ("client_id", client_id),
        ("redirect_uri", redirect_uri),
        ("scope", "openid email profile"),
        ("state", state),
        ("code_challenge", challenge),
        ("code_challenge_method", "S256"),
    ];
    assert(pairs(query@) =~= authorize_query(client_id@, redirect_uri@, state@, challenge@));
    add_query(endpoint, &query)
}

/// What the provider is told when a code is exchanged.
pub open spec fn exchange_form(
    cfg: OidcConfig,
    code: Seq<char>,
    verifier: Seq<char>,
) -> Seq<(Seq<char>, Seq<char>)> {
    seq![
        ("grant_type"@, "authorization_code"@),
        ("code"@, code),
        ("redirect_uri"@, cfg.redirect_uri@),
        ("client_id"@, cfg.client_id@),
        ("client_secret"@, cfg.client_secret@),
        ("code_verifier"@, verifier),
    ]
}

pub open spec fn form_models(v: Seq<(String, String)>) -> Seq<(Seq<char>, Seq<char>)> {
    Seq::new(v.len(), |i: int| (v[i].0@, v[i].1@))
}

pub fn exchange_params(cfg: &OidcConfig, code: &str, verifier: &str) -> (r: Vec<(String, String)>)
    ensures
        form_models(r@) == exchange_form(*cfg, code@, verifier@),
{
    let r = vec![
        ("grant_type".to_owned(), "authorization_code".to_owned()),
        ("code".to_owned(), code.to_owned()),
        ("redirect_uri".to_owned(), cfg.redirect_uri.clone()),
        ("client_id".to_owned(), cfg.client_id.clone()),
        ("client_secret".to_owned(), cfg.client_secret.clone()),
        ("code_verifier".to_owned(), verifier.to_owned()),
    ];
    assert(form_models(r@) =~= exchange_form(*cfg, code@, verifier@));
    r
}

// ---------------------------------------------------------------------------
// What the provider says
// ---------------------------------------------------------------------------

/// Who the provider says it is.
#[derive(Debug, Clone, PartialEq, Eq)]
pub struct IdTokenClaims {
    pub sub: String,
    pub email: Option<String>,
    pub name: Option<String>,
    pub exp: usize,
}

pub struct IdModel {
    pub sub: Seq<char>,
    pub email: Option<Seq<char>>,
    pub name: Option<Seq<char>>,
    pub exp: usize,
}

impl View for IdTokenClaims {
    type V = IdModel;

    open spec fn view(&self) -> IdModel {
        IdModel {
            sub: self.sub@,
            email: opt_text(self.email),
            name: opt_text(self.name),
            exp: self.exp,
        }
    }
}

/// A member that may be left out or null, but is a text otherwise.
pub open spec fn text_if_any(m: JsonModel, key: Seq<char>) -> Option<Option<Seq<char>>> {
    match m.field(key) {
        None => Some(None),
        Some(JsonModel::Null) => Some(None),
        Some(JsonModel::Str(t)) => Some(Some(t)),
        Some(_) => None,
    }
}

/// What the payload of an ID token says.
pub open spec fn id_claims_in(m: JsonModel) -> Option<IdModel> {
    match (
        m.at("sub"@).text(),
        text_if_any(m, "email"@),
        text_if_any(m, "name"@),
        m.at("exp"@).unsigned(),
    ) {
        (Some(sub), Some(email), Some(name), Some(exp)) => if exp <= usize::MAX {
            Some(IdModel { sub, email, name, exp: exp as usize })
        } else {
            None
        },
        _ => None,
    }
}

pub open spec fn opt_id(c: Option<IdTokenClaims>) -> Option<IdModel> {
    match c {
        Some(c) => Some(c@),
        None => None,
    }
}

fn read_text_if_any(j: &Json, key: &str) -> (r: Option<Option<String>>)
    ensures
        match r {
            Some(t) => text_if_any(j.model(), key@) == Some(opt_text(t)),
            None => text_if_any(j.model(), key@) is None,
        },
{
    match j.get(key) {
        None => Some(None),
        Some(v) => match v {
            Json::Null => Some(None),
            Json::Str(t) => Some(Some(t.clone())),
            _ => None,
        },
    }
}

/// Reads the payload of an ID token.
pub fn id_claims_from(j: &Json) -> (r: Option<IdTokenClaims>)
    ensures
        opt_id(r) == id_claims_in(j.model()),
{
    let sub = match j.get("sub") {
        Some(v) => match v.as_str() {
            Some(t) => t.to_owned(),
            None => {
                return None;
            },
        },
        None => {
            return None;
        },
    };
    let (email, name) = match (read_text_if_any(j, "email"), read_text_if_any(j, "name")) {
        (Some(email), Some(name)) => (email, name),
        _ => {
            return None;
        },
    };
    let exp: u64 = match j.get("exp") {
        Some(v) => match v.as_u64() {
            Some(n) => n,
            None => {
                return None;
            },
        },
        None => {
            return None;
        },
    };
    if exp > usize::MAX as u64 {
        return None;
    }
    Some(IdTokenClaims { sub, email, name, exp: exp as usize })
}

/// The id of the key that a token says it is signed with; none where the token
/// is malformed or says nothing.
pub uninterp spec fn token_key_id(token: Seq<char>) -> Option<Seq<char>>;

/// `jsonwebtoken::decode_header`, and the key id in what it returns: both depend
/// on the token alone.
#[verifier::external_body]
fn read_key_id(token: &str) -> (r: Option<String>)
    ensures
        match r {
            Some(t) => token_key_id(token@) == Some(t@),
            None => token_key_id(token@) is None,
        },
{
    jsonwebtoken::decode_header(token).ok()?.kid
}

/// The claims with which `jsonwebtoken::decode` opens a token under a public key
/// for as long as they last: its RS256 signature is right, it says when it ends,
/// and it names no issuer but this one and no audience without this client. None
/// where any of this fails, or token or key is malformed.
pub uninterp spec fn signed_claims(
    token: Seq<char>,
    key: JsonModel,
    client_id: Seq<char>,
    issuer: Seq<char>,
) -> Option<JsonModel>;

/// `jsonwebtoken::decode` for RS256, with audience, issuer and expiry checked:
/// what it accepts are the claims of the token, and of the tokens that have claims
/// it refuses only those that are over. The limit is a minute before the clock's
/// time; of the clock nothing is known.
#[verifier::external_body]
fn open_signed(token: &str, key: &serde_json::Value, client_id: &str, issuer: &str) -> (r: Option<
    serde_json::Value,
>)
    ensures
        r matches Some(v) ==> signed_claims(token@, value_model(*key), client_id@, issuer@) == Some(
            value_model(v),
        ),
        exists|limit: u64| #[trigger]
            opens(
                signed_claims(token@, value_model(*key), client_id@, issuer@),
                limit,
                r is Some,
            ),
{
    let jwk: jsonwebtoken::jwk::Jwk = serde_json::from_value(key.clone()).ok()?;
    let key = jsonwebtoken::DecodingKey::from_jwk(&jwk).ok()?;
    let mut validation = jsonwebtoken::Validation::new(jsonwebtoken::Algorithm::RS256);
    validation.set_audience(&[client_id]);
    validation.set_issuer(&[issuer]);
    jsonwebtoken::decode::<serde_json::Value>(token, &key, &validation).ok().map(|d| d.claims)
}

/// The first key of that id among some.
pub open spec fn key_named(keys: Seq<JsonModel>, kid: Seq<char>) -> Option<JsonModel>
    decreases keys.len(),
{
    if keys.len() == 0 {
        None
    } else if keys[0].at("kid"@).text() == Some(kid) {
        Some(keys[0])
    } else {
        key_named(keys.drop_first(), kid)
    }
}

/// The key that a token says it is signed with, in a set of keys.
pub open spec fn signing_key(jwks: JsonModel, token: Seq<char>) -> Option<JsonModel> {
    match (token_key_id(token), jwks.at("keys"@).items()) {
        (Some(kid), Some(keys)) => key_named(keys, kid),
        _ => None,
    }
}

fn find_key<'a>(keys: &'a Vec<Json>, kid: &str) -> (r: Option<&'a Json>)
    ensures
        match r {
            Some(k) => key_named(crate::json::list_models(keys@), kid@) == Some(k.model())
                && keys@.contains(*k),
            None => key_named(crate::json::list_models(keys@), kid@) is None,
        },
{
    let ghost all = crate::json::list_models(keys@);
    let mut i: usize = 0;
    assert(all.skip(0) =~= all);
    while i < keys.len()
        invariant
            i <= keys@.len(),
            all == crate::json::list_models(keys@),
            key_named(all.skip(i as int), kid@) == key_named(all, kid@),
        decreases keys@.len() - i,
    {
        assert(all.skip(i as int)[0] == keys@[i as int].model());
        let found = match keys[i].get("kid") {
            Some(v) => match v.as_str() {
                Some(t) => same(t, kid),
                None => false,
            },
            None => false,
        };
        if found {
            return Some(&keys[i]);
        }
        assert(all.skip(i as int).drop_first() =~= all.skip(i + 1));
        i += 1;
    }
    None
}

/// What a token says, where the key it names is in the set and has signed it for
/// this client, and whatever ended before `limit` is over.
pub open spec fn id_token_at(
    token: Seq<char>,
    jwks: JsonModel,
    client_id: Seq<char>,
    issuer: Seq<char>,
    limit: u64,
) -> Option<IdModel> {
    match signing_key(jwks, token) {
        Some(key) => match signed_claims(token, key, client_id, issuer) {
            Some(m) => match id_claims_in(m) {
                Some(c) => if limit <= c.exp {
                    Some(c)
                } else {
                    None
                },
                None => None,
            },
            None => None,
        },
        None => None,
    }
}

/// Opens an ID token with the provider's keys: one that was signed with the key it
/// names, says who it is for, and lasts. Until when it must last is the clock's to
/// say.
pub fn validate_id_token(token: &str, jwks: &Json, client_id: &str, issuer_url: &str) -> (r: Option<
    IdTokenClaims,
>)
    requires
        jwks.wf(),
    ensures
        exists|limit: u64|
            opt_id(r) == #[trigger] id_token_at(
                token@,
                jwks.model(),
                client_id@,
                issuer_url@,
                limit,
            ),
{
    proof {
        assert(signing_key(jwks.model(), token@) is None ==> id_token_at(
            token@,
            jwks.model(),
            client_id@,
            issuer_url@,
            0,
        ) is None);
    }
    let kid = match read_key_id(token) {
        Some(kid) => kid,
        None => {
            return None;
        },
    };
    let keys = match jwks.get("keys") {
        Some(v) => match v.as_array() {
            Some(keys) => keys,
            None => {
                return None;
            },
        },
        None => {
            return None;
        },
    };
    let key = match find_key(keys, kid.as_str()) {
        Some(key) => key,
        None => {
            return None;
        },
    };
    proof {
        Json::lemma_field_wf(jwks.model(), "keys"@);
        let all = crate::json::list_models(keys@);
        let i = choose|i: int| 0 <= i < keys@.len() && keys@[i] == *key;
        assert(all[i].wf());
    }
    let value = key.to_value();
    let ghost claims = signed_claims(token@, key.model(), client_id@, issuer_url@);
    let opened = open_signed(token, &value, client_id, issuer_url);
    let ghost limit = choose|limit: u64| #[trigger] opens(claims, limit, opened is Some);
    let r = match opened {
        Some(v) => {
            let payload = Json::from_value(&v);
            id_claims_from(&payload)
        },
        None => None,
    };
    assert(opt_id(r) == id_token_at(token@, jwks.model(), client_id@, issuer_url@, limit));
    r
}

// ---------------------------------------------------------------------------
// The way back
// ---------------------------------------------------------------------------

/// An admin to be stored at the first login.
#[derive(Debug, Clone, PartialEq, Eq)]
pub struct NewAdminUserFromOidc {
    pub name: String,
    pub email: String,
    pub oidc_subject: String,
    pub role: String,
}

/// What the browser gets where a login fails.
#[derive(Debug, Clone, Copy, PartialEq, Eq)]
pub struct Refusal {
    pub status: u16,
    pub message: &'static str,
}

impl Refusal {
    pub open spec fn is(self, status: u16, message: Seq<char>) -> bool {
        self.status == status && self.message@ == message
    }
}

/// What is to be done next.
#[derive(Debug, Clone, PartialEq, Eq)]
pub enum CallbackStep {
    /// Ask the provider what it offers.
    Discover(String),
    /// Exchange the code: send the form to the endpoint.
    Exchange { endpoint: String, form: Vec<(String, String)> },
    /// Fetch the provider's keys.
    FetchKeys(String),
    FindAdmin(String),
    Provision(NewAdminUserFromOidc),
    /// Record the login, set the cookie and go to the dashboard.
    Enter { admin_id: i64, cookie: String },
    Refuse(Refusal),
}

/// Where a login stands.
#[derive(Debug, Clone, PartialEq, Eq)]
pub enum CallbackPhase {
    /// With the verifier.
    Discovering(String),
    /// With where the keys are.
    Exchanging(String),
    /// With the token.
    FetchingKeys(String),
    FindingAdmin(IdTokenClaims),
    Provisioning,
    Ended,
}

/// A login that comes back from the provider.
pub struct Callback {
    pub phase: CallbackPhase,
    pub code: String,
}

pub open spec fn email_of(c: IdModel) -> Seq<char> {
    match c.email {
        Some(e) => e,
        None => Seq::empty(),
    }
}

pub open spec fn permitted(c: IdModel, cfg: OidcConfig) -> bool {
    email_permitted(email_of(c), texts(cfg.allowed_emails@), texts(cfg.allowed_domains@))
}

/// Whether an admin is let in, and with what: only one that is enabled, with a
/// session that says who it is.
pub open spec fn enters(
    admin: AdminUser,
    secs: i64,
    expiry_mins: i64,
    secret: Seq<char>,
    step: CallbackStep,
) -> bool {
    if !admin.enabled {
        step matches CallbackStep::Refuse(x) && x.is(403, "Account disabled"@)
    } else {
        match minutes_later(secs, expiry_mins as int) {
            None => step matches CallbackStep::Refuse(x) && x.is(500, "Session error"@),
            Some(end) => step matches CallbackStep::Enter { admin_id, cookie } && admin_id
                == admin.id && exists|token: Seq<char>|
                cookie@ == SESSION_COOKIE@ + token + "; Path=/; HttpOnly; SameSite=Lax"@
                    && #[trigger] jwt_claims(token, secret) == Some(
                    claims_object(claims_for(admin, end)),
                ),
        }
    }
}

fn enter(admin: &AdminUser, secs: i64, expiry_mins: i64, secret: &str) -> (r: CallbackStep)
    ensures
        enters(*admin, secs, expiry_mins, secret@, r),
{
    if !admin.enabled {
        return CallbackStep::Refuse(Refusal { status: 403, message: "Account disabled" });
    }
    match open_session(admin, secs, expiry_mins, secret) {
        Some(token) => {
            let cookie = session_cookie(token.as_str());
            let step = CallbackStep::Enter { admin_id: admin.id, cookie };
            proof {
                assert(jwt_claims(token@, secret@) == jwt_claims(token@, secret@));
            }
            step
        },
        None => CallbackStep::Refuse(Refusal { status: 500, message: "Session error" }),
    }
}

/// Whether logging in this way is switched on.
pub fn check_enabled(cfg: &OidcConfig) -> (r: Result<(), Refusal>)
    ensures
        cfg.enabled ==> r is Ok,
        !cfg.enabled ==> (r matches Err(x) && x.is(404, "OIDC not enabled"@)),
{
    if cfg.enabled {
        Ok(())
    } else {
        Err(Refusal { status: 404, message: "OIDC not enabled" })
    }
}

impl Callback {
    /// Begins with what the browser brought. The state is used up, whatever
    /// comes of it; where logging in this way is switched off, it is not even
    /// looked at.
    pub fn start(
        cfg: &OidcConfig,
        store: &mut OidcStateStore,
        params: OidcCallbackQuery,
        now: u64,
    ) -> (r: (Callback, CallbackStep))
        ensures
            r.0.code@ == params.code@,
            !cfg.enabled ==> {
                &&& final(store).logins() == old(store).logins()
                &&& r.0.phase == CallbackPhase::Ended
                &&& r.1 matches CallbackStep::Refuse(x) && x.is(404, "OIDC not enabled"@)
            },
            cfg.enabled ==> final(store).logins() == old(store).logins().remove(params.state@),
            cfg.enabled ==> match verifier_of(old(store).logins(), params.state@, now) {
                None => {
                    &&& r.0.phase == CallbackPhase::Ended
                    &&& r.1 matches CallbackStep::Refuse(x) && x.is(400, "Invalid or expired state"@)
                },
                Some(verifier) => {
                    &&& r.0.phase matches CallbackPhase::Discovering(v) && v@ == verifier
                    &&& r.1 matches CallbackStep::Discover(url) && url@ == without_trailing(
                        cfg.issuer_url@,
                        '/',
                    ) + "/.well-known/openid-configuration"@
                },
            },
    {
        if let Err(x) = check_enabled(cfg) {
            return (
                Callback { phase: CallbackPhase::Ended, code: params.code },
                CallbackStep::Refuse(x),
            );
        }
        match store.take(params.state.as_str(), now) {
            Some(verifier) => (
                Callback { phase: CallbackPhase::Discovering(verifier), code: params.code },
                CallbackStep::Discover(discovery_url(cfg.issuer_url.as_str())),
            ),
            None => (
                Callback { phase: CallbackPhase::Ended, code: params.code },
                CallbackStep::Refuse(Refusal { status: 400, message: "Invalid or expired state" }),
            ),
        }
    }

    fn refuse(&mut self, status: u16, message: &'static str) -> (r: CallbackStep)
        ensures
            *final(self) == (Callback { phase: CallbackPhase::Ended, ..*old(self) }),
            r matches CallbackStep::Refuse(x) && x.is(status, message@),
    {
        self.phase = CallbackPhase::Ended;
        CallbackStep::Refuse(Refusal { status, message })
    }

    /// The provider said what it offers.
    pub fn on_discovery(&mut self, cfg: &OidcConfig, found: Result<OidcDiscovery, ()>) -> (r:
        CallbackStep)
        requires
            old(self).phase is Discovering,
        ensures
            final(self).code == old(self).code,
            match found {
                Ok(d) => {
                    &&& old(self).phase matches CallbackPhase::Discovering(verifier)
                    &&& r matches CallbackStep::Exchange { endpoint, form }
                    &&& final(self).phase == CallbackPhase::Exchanging(d.jwks_uri)
                    &&& endpoint == d.token_endpoint
                    &&& form_models(form@) == exchange_form(*cfg, old(self).code@, verifier@)
                },
                Err(_) => final(self).phase == CallbackPhase::Ended && (
                r matches CallbackStep::Refuse(x) && x.is(502, "OIDC discovery failed"@)),
            },
    {
        let mut phase = CallbackPhase::Ended;
        std::mem::swap(&mut self.phase, &mut phase);
        match (found, phase) {
            (Ok(d), CallbackPhase::Discovering(verifier)) => {
                let form = exchange_params(cfg, self.code.as_str(), verifier.as_str());
                self.phase = CallbackPhase::Exchanging(d.jwks_uri);
                CallbackStep::Exchange { endpoint: d.token_endpoint, form }
            },
            _ => self.refuse(502, "OIDC discovery failed"),
        }
    }

    /// The code was exchanged for a token.
    pub fn on_token(&mut self, exchanged: Result<TokenResponse, ()>) -> (r: CallbackStep)
        requires
            old(self).phase is Exchanging,
        ensures
            final(self).code == old(self).code,
            match exchanged {
                Ok(t) => {
                    &&& old(self).phase matches CallbackPhase::Exchanging(uri)
                    &&& final(self).phase == CallbackPhase::FetchingKeys(t.id_token)
                    &&& r == CallbackStep::FetchKeys(uri)
                },
                Err(_) => final(self).phase == CallbackPhase::Ended && (
                r matches CallbackStep::Refuse(x) && x.is(502, "Token exchange failed"@)),
            },
    {
        let mut phase = CallbackPhase::Ended;
        std::mem::swap(&mut self.phase, &mut phase);
        match (exchanged, phase) {
            (Ok(t), CallbackPhase::Exchanging(uri)) => {
                self.phase = CallbackPhase::FetchingKeys(t.id_token);
                CallbackStep::FetchKeys(uri)
            },
            _ => self.refuse(502, "Token exchange failed"),
        }
    }

    /// What follows once it is known what the token says, if it is accepted.
    pub open spec fn identified(
        self,
        next: Callback,
        cfg: OidcConfig,
        claims: Option<IdModel>,
        step: CallbackStep,
    ) -> bool {
        match claims {
            None => next.phase == CallbackPhase::Ended && (step matches CallbackStep::Refuse(x)
                && x.is(401, "ID token validation failed"@)),
            Some(c) => if !permitted(c, cfg) {
                next.phase == CallbackPhase::Ended && (step matches CallbackStep::Refuse(x)
                    && x.is(403, "Email not permitted"@))
            } else {
                &&& next.phase matches CallbackPhase::FindingAdmin(d) && d@ == c
                &&& step matches CallbackStep::FindAdmin(sub) && sub@ == c.sub
            },
        }
    }

    /// The token was opened.
    pub fn on_claims(&mut self, cfg: &OidcConfig, claims: Option<IdTokenClaims>) -> (r: CallbackStep)
        requires
            old(self).phase is FetchingKeys,
        ensures
            final(self).code == old(self).code,
            old(self).identified(*final(self), *cfg, opt_id(claims), r),
    {
        match claims {
            None => self.refuse(401, "ID token validation failed"),
            Some(c) => {
                let email = match &c.email {
                    Some(e) => e.clone(),
                    None => String::new(),
                };
                if !is_email_allowed(email.as_str(), &cfg.allowed_emails, &cfg.allowed_domains) {
                    return self.refuse(403, "Email not permitted");
                }
                let sub = c.sub.clone();
                self.phase = CallbackPhase::FindingAdmin(c);
                CallbackStep::FindAdmin(sub)
            },
        }
    }

    /// The provider's keys came. Nobody goes on whose token was not signed with
    /// one of them.
    pub fn on_keys(&mut self, cfg: &OidcConfig, keys: Result<Json, ()>) -> (r: CallbackStep)
        requires
            old(self).phase is FetchingKeys,
            keys matches Ok(j) ==> j.wf(),
        ensures
            final(self).code == old(self).code,
            keys is Err ==> old(self).identified(*final(self), *cfg, None, r),
            keys matches Ok(j) ==> {
                &&& old(self).phase matches CallbackPhase::FetchingKeys(token)
                &&& exists|limit: u64|
                    old(self).identified(
                        *final(self),
                        *cfg,
                        #[trigger] id_token_at(
                            token@,
                            j.model(),
                            cfg.client_id@,
                            cfg.issuer_url@,
                            limit,
                        ),
                        r,
                    )
            },
    {
        let claims = match (&self.phase, &keys) {
            (CallbackPhase::FetchingKeys(token), Ok(j)) => validate_id_token(
                token.as_str(),
                j,
                cfg.client_id.as_str(),
                cfg.issuer_url.as_str(),
            ),
            _ => None,
        };
        self.on_claims(cfg, claims)
    }

    /// The admin was looked up. One that is not known is stored first.
    pub fn on_admin(
        &mut self,
        cfg: &OidcConfig,
        found: Result<Option<AdminUser>, ()>,
        secs: i64,
        expiry_mins: i64,
        secret: &str,
    ) -> (r: CallbackStep)
        requires
            old(self).phase is FindingAdmin,
        ensures
            final(self).code == old(self).code,
            match found {
                Ok(Some(admin)) => final(self).phase == CallbackPhase::Ended && enters(
                    admin,
                    secs,
                    expiry_mins,
                    secret@,
                    r,
                ),
                Ok(None) => {
                    &&& old(self).phase matches CallbackPhase::FindingAdmin(c)
                    &&& r matches CallbackStep::Provision(a)
                    &&& final(self).phase == CallbackPhase::Provisioning
                    &&& a.name@ == match c@.name {
                        Some(n) => n,
                        None => email_of(c@),
                    }
                    &&& a.email@ == email_of(c@)
                    &&& a.oidc_subject@ == c@.sub
                    &&& a.role@ == cfg.auto_provision_role@
                },
                Err(_) => final(self).phase == CallbackPhase::Ended && (
                r matches CallbackStep::Refuse(x) && x.is(500, "DB error"@)),
            },
    {
        let mut phase = CallbackPhase::Ended;
        std::mem::swap(&mut self.phase, &mut phase);
        match (found, phase) {
            (Ok(Some(admin)), _) => enter(&admin, secs, expiry_mins, secret),
            (Ok(None), CallbackPhase::FindingAdmin(c)) => {
                let email = match &c.email {
                    Some(e) => e.clone(),
                    None => String::new(),
                };
                let name = match &c.name {
                    Some(n) => n.clone(),
                    None => email.clone(),
                };
                self.phase = CallbackPhase::Provisioning;
                CallbackStep::Provision(
                    NewAdminUserFromOidc {
                        name,
                        email,
                        oidc_subject: c.sub,
                        role: cfg.auto_provision_role.clone(),
                    },
                )
            },
            _ => self.refuse(500, "DB error"),
        }
    }

    /// The admin was stored.
    pub fn on_provisioned(
        &mut self,
        created: Result<AdminUser, ()>,
        secs: i64,
        expiry_mins: i64,
        secret: &str,
    ) -> (r: CallbackStep)
        requires
            old(self).phase is Provisioning,
        ensures
            *final(self) == (Callback { phase: CallbackPhase::Ended, ..*old(self) }),
            match created {
                Ok(admin) => enters(admin, secs, expiry_mins, secret@, r),
                Err(_) => r matches CallbackStep::Refuse(x) && x.is(500, "Provisioning failed"@),
            },
    {
        match created {
            Ok(admin) => {
                self.phase = CallbackPhase::Ended;
                enter(&admin, secs, expiry_mins, secret)
            },
            Err(_) => self.refuse(500, "Provisioning failed"),
        }
    }
}

// ---------------------------------------------------------------------------
// Laws
// ---------------------------------------------------------------------------

/// A state can be used once.
pub proof fn states_are_used_once(p: Pending, state: Seq<char>, later: u64)
    ensures
        verifier_of(p.remove(state), state, later) is None,
{
}

/// The pending logins after some more, each with its state, its verifier and the
/// time at which it began.
pub open spec fn all_begun(p: Pending, logins: Seq<(Seq<char>, Seq<char>, u64)>) -> Pending
    decreases logins.len(),
{
    if logins.len() == 0 {
        p
    } else {
        let last = logins.last();
        begun(all_begun(p, logins.drop_last()), last.0, last.1, last.2)
    }
}

/// A login that has begun can be completed for five minutes, whatever else has
/// begun meanwhile under other states, and not after.
pub proof fn logins_expire(
    p: Pending,
    state: Seq<char>,
    verifier: Seq<char>,
    start: u64,
    others: Seq<(Seq<char>, Seq<char>, u64)>,
    now: u64,
)
    requires
        start <= now,
        forall|i: int|
            0 <= i < others.len() ==> (#[trigger] others[i]).0 != state && start <= others[i].2
                <= now,
    ensures
        verifier_of(all_begun(begun(p, state, verifier, start), others), state, now) == if now
            - start <= STATE_LIFETIME {
            Some(verifier)
        } else {
            None
        },
{
    lemma_login_is_kept(p, state, verifier, start, others, now);
}

proof fn lemma_login_is_kept(
    p: Pending,
    state: Seq<char>,
    verifier: Seq<char>,
    start: u64,
    others: Seq<(Seq<char>, Seq<char>, u64)>,
    now: u64,
)
    requires
        start <= now,
        forall|i: int|
            0 <= i < others.len() ==> (#[trigger] others[i]).0 != state && start <= others[i].2
                <= now,
    ensures
        ({
            let q = all_begun(begun(p, state, verifier, start), others);
            &&& q.contains_key(state) ==> q[state] == (verifier, start)
            &&& now - start <= STATE_LIFETIME ==> q.contains_key(state)
        }),
    decreases others.len(),
{
    if others.len() > 0 {
        let front = others.drop_last();
        assert(others[others.len() - 1] == others.last());
        assert forall|i: int| 0 <= i < front.len() implies (#[trigger] front[i]).0 != state && start
            <= front[i].2 <= now by {
            assert(front[i] == others[i]);
        }
        lemma_login_is_kept(p, state, verifier, start, front, now);
    }
}

/// Without lists everybody may come in; with one, only who is on it, by address or
/// by domain.
pub proof fn lists_decide(email: Seq<char>, emails: Seq<Seq<char>>, domains: Seq<Seq<char>>)
    ensures
        emails.len() == 0 && domains.len() == 0 ==> email_permitted(email, emails, domains),
        emails.len() > 0 && domains.len() == 0 ==> (email_permitted(email, emails, domains)
            <==> emails.contains(email)),
        emails.len() == 0 && domains.len() > 0 ==> (email_permitted(email, emails, domains) <==> (
        domain_of(email) matches Some(d) && domains.contains(d))),
        emails.len() > 0 && domains.len() > 0 ==> (email_permitted(email, emails, domains) <==> (
        emails.contains(email) || (domain_of(email) matches Some(d) && domains.contains(d)))),
{
    if emails.len() == 0 {
        assert(forall|e: Seq<char>| !emails.contains(e));
    }
    if domains.len() == 0 {
        assert(forall|d: Seq<char>| !domains.contains(d));
    }
}

/// A login asks the provider by name: for a code, for this client and place to return to, with
/// the state and the challenge of the login.
pub proof fn logins_ask_by_name(client_id: Seq<char>, redirect_uri: Seq<char>, state: Seq<char>, challenge: Seq<char>)
    ensures
        value_named(authorize_query(client_id, redirect_uri, state, challenge), "response_type"@) == "code"@,
        value_named(authorize_query(client_id, redirect_uri, state, challenge), "client_id"@) == client_id,
        value_named(authorize_query(client_id, redirect_uri, state, challenge), "redirect_uri"@)
            == redirect_uri,
        value_named(authorize_query(client_id, redirect_uri, state, challenge), "scope"@)
            == "openid email profile"@,
        value_named(authorize_query(client_id, redirect_uri, state, challenge), "state"@) == state,
        value_named(authorize_query(client_id, redirect_uri, state, challenge), "code_challenge"@)
            == challenge,
        value_named(authorize_query(client_id, redirect_uri, state, challenge), "code_challenge_method"@)
            == "S256"@,
{
    reveal_strlit("response_type");
    reveal_strlit("client_id");
    reveal_strlit("redirect_uri");
    reveal_strlit("scope");
    reveal_strlit("state");
    reveal_strlit("code_challenge");
    reveal_strlit("code_challenge_method");
    assert("response_type"@.len() == 13);
    assert("client_id"@.len() == 9);
    assert("redirect_uri"@.len() == 12);
    assert("scope"@.len() == 5 && "scope"@[1] == 'c');
    assert("state"@.len() == 5 && "state"@[1] == 't');
    assert("code_challenge"@.len() == 14);
    assert("code_challenge_method"@.len() == 21);
    let q = authorize_query(client_id, redirect_uri, state, challenge);
    lemma_first_named(q, "response_type"@, 0);
    lemma_first_named(q, "client_id"@, 1);
    lemma_first_named(q, "redirect_uri"@, 2);
    lemma_first_named(q, "scope"@, 3);
    lemma_first_named(q, "state"@, 4);
    lemma_first_named(q, "code_challenge"@, 5);
    lemma_first_named(q, "code_challenge_method"@, 6);
}

/// The code is exchanged by name: with the place it was sent to, the client and its secret,
/// and the verifier of the login.
pub proof fn codes_are_exchanged_by_name(cfg: OidcConfig, code: Seq<char>, verifier: Seq<char>)
    ensures
        value_named(exchange_form(cfg, code, verifier), "grant_type"@) == "authorization_code"@,
        value_named(exchange_form(cfg, code, verifier), "code"@) == code,
        value_named(exchange_form(cfg, code, verifier), "redirect_uri"@) == cfg.redirect_uri@,
        value_named(exchange_form(cfg, code, verifier), "client_id"@) == cfg.client_id@,
        value_named(exchange_form(cfg, code, verifier), "client_secret"@) == cfg.client_secret@,
        value_named(exchange_form(cfg, code, verifier), "code_verifier"@) == verifier,
{
    reveal_strlit("grant_type");
    reveal_strlit("code");
    reveal_strlit("redirect_uri");
    reveal_strlit("client_id");
    reveal_strlit("client_secret");
    reveal_strlit("code_verifier");
    assert("grant_type"@.len() == 10);
    assert("code"@.len() == 4);
    assert("redirect_uri"@.len() == 12);
    assert("client_id"@.len() == 9);
    assert("client_secret"@.len() == 13 && "client_secret"@[1] == 'l');
    assert("code_verifier"@.len() == 13 && "code_verifier"@[1] == 'o');
    let q = exchange_form(cfg, code, verifier);
    lemma_first_named(q, "grant_type"@, 0);
    lemma_first_named(q, "code"@, 1);
    lemma_first_named(q, "redirect_uri"@, 2);
    lemma_first_named(q, "client_id"@, 3);
    lemma_first_named(q, "client_secret"@, 4);
    lemma_first_named(q, "code_verifier"@, 5);
}

/// Who logged in is read by name from what the provider signed; an address or a name may be
/// left out.
pub proof fn identities_are_read_by_name(m: JsonModel, c: IdModel, t: Seq<char>)
    requires
        id_claims_in(m) == Some(c),
    ensures
        m.at("sub"@) == JsonModel::Str(c.sub),
        m.at("exp"@).unsigned() == Some(c.exp as u64),
        m.field("email"@) == Some(JsonModel::Str(t)) ==> c.email == Some(t),
        m.field("email"@) is None ==> c.email is None,
        m.field("name"@) == Some(JsonModel::Str(t)) ==> c.name == Some(t),
        m.field("name"@) is None ==> c.name is None,
        c.email == Some(t) ==> email_of(c) == t,
{
}

/// The key that a token was signed with is the first of its name.
pub proof fn keys_are_found_by_name(s: Seq<JsonModel>, kid: Seq<char>, i: int)
    ensures
        0 <= i < s.len() && s[i].at("kid"@).text() == Some(kid) && (forall|j: int| 0 <= j < i ==> !((#[trigger] s[j]).at("kid"@).text() == Some(kid))) ==> key_named(s, kid) == Some(s[i]),
        (forall|j: int| 0 <= j < s.len() ==> !((#[trigger] s[j]).at("kid"@).text() == Some(kid))) ==> key_named(s, kid) is None,
    decreases s.len(),
{
    if s.len() > 0 {
        let rest = s.drop_first();
        keys_are_found_by_name(rest, kid, i - 1);
        assert(forall|j: int| 0 <= j < rest.len() ==> #[trigger] rest[j] == s[j + 1]);
        if 0 <= i < s.len() && s[i].at("kid"@).text() == Some(kid) && (forall|j: int| 0 <= j < i ==> !((#[trigger] s[j]).at("kid"@).text() == Some(kid))) && i > 0 {
            assert(!(s[0].at("kid"@).text() == Some(kid)));
            assert forall|j: int| 0 <= j < i - 1 implies !((#[trigger] rest[j]).at("kid"@).text() == Some(kid)) by {
                assert(rest[j] == s[j + 1]);
            }
        }
    }
}

/// A token is accepted where the provider's key of its name opens it for this client and this
/// issuer, until it ends; otherwise it is not.
pub proof fn tokens_are_accepted_until_their_end(
    token: Seq<char>,
    jwks: JsonModel,
    client: Seq<char>,
    issuer: Seq<char>,
    limit: u64,
    key: JsonModel,
    m: JsonModel,
    c: IdModel,
)
    ensures
        signing_key(jwks, token) == Some(key) && signed_claims(token, key, client, issuer) == Some(m)
            && id_claims_in(m) == Some(c) && limit <= c.exp ==> id_token_at(token, jwks, client, issuer, limit)
            == Some(c),
        id_token_at(token, jwks, client, issuer, limit) == Some(c) ==> limit <= c.exp && (signing_key(
            jwks,
            token,
        ) matches Some(k) && (signed_claims(token, k, client, issuer) matches Some(x) && id_claims_in(x)
            == Some(c))),
        signing_key(jwks, token) is None ==> id_token_at(token, jwks, client, issuer, limit) is None,
{
}

/// A pending login gives back its own verifier while it is fresh, five minutes long, and the
/// challenge is that of the verifier.
pub proof fn pending_logins_keep_their_verifier(p: Pending, state: Seq<char>, verifier: Seq<char>, start: u64, now: u64)
    requires
        start <= now,
    ensures
        now - start <= 300_000_000_000 ==> verifier_of(begun(p, state, verifier, start), state, now) == Some(
            verifier,
        ),
        now - start > 300_000_000_000 ==> verifier_of(begun(p, state, verifier, start), state, now) is None,
        !p.contains_key(state) ==> verifier_of(p, state, now) is None,
        challenge_of(verifier) == base64_url_text(sha256(encode_utf8(verifier))),
{
}

/// The domain of an address is what stands between its first and its second at sign, or
/// behind the first.
pub proof fn domains_stand_behind_the_sign(user: Seq<char>, domain: Seq<char>)
    requires
        in_one_piece(user, '@', '@'),
        in_one_piece(domain, '@', '@'),
    ensures
        domain_of(user.push('@') + domain) == Some(domain),
        domain_of(user) is None,
{
    last_piece(Seq::empty(), '@', '@', user);
    last_piece(user, '@', '@', domain);
    let parts = pieces(user.push('@') + domain, '@', '@');
    assert(parts.len() == 2);
    assert(parts[1] == domain);
}

/// An administrator enters under their own number, with a session of their own, unless their
/// account is disabled.
pub proof fn administrators_enter_as_themselves(a: AdminUser, secs: i64, mins: i64, secret: Seq<char>, step: CallbackStep)
    requires
        enters(a, secs, mins, secret, step),
    ensures
        !a.enabled ==> (step matches CallbackStep::Refuse(x) && x.status == 403 && x.message@
            == "Account disabled"@),
        step matches CallbackStep::Enter { admin_id, cookie } ==> admin_id == a.id && a.enabled && (exists|
            token: Seq<char>,
            c: ClaimsModel,
        |
            cookie@ == "mr_admin_session="@ + token + "; Path=/; HttpOnly; SameSite=Lax"@
                && #[trigger] jwt_claims(token, secret) == Some(#[trigger] claims_object(c)) && c.sub == a.id
                && c.name == a.name@ && c.role == a.role@),
{
    if let CallbackStep::Enter { admin_id, cookie } = step {
        let end = minutes_later(secs, mins as int)->0;
        let token = choose|token: Seq<char>|
            cookie@ == SESSION_COOKIE@ + token + "; Path=/; HttpOnly; SameSite=Lax"@
                && #[trigger] jwt_claims(token, secret) == Some(claims_object(claims_for(a, end)));
        assert(jwt_claims(token, secret) == Some(claims_object(claims_for(a, end))));
    }
}

/// One whose address is permitted is looked for by the provider's name for them; any other is
/// turned away, and so is a token that was not accepted.
pub proof fn identified_callers_are_looked_for(f: Callback, next: Callback, cfg: OidcConfig, claims: Option<IdModel>, step: CallbackStep)
    requires
        f.identified(next, cfg, claims, step),
    ensures
        claims is None ==> (step matches CallbackStep::Refuse(x) && x.status == 401),
        claims matches Some(c) ==> (!permitted(c, cfg) ==> (step matches CallbackStep::Refuse(x) && x.status
            == 403)),
        claims matches Some(c) ==> (permitted(c, cfg) ==> (step matches CallbackStep::FindAdmin(sub) && sub@
            == c.sub)),
        claims matches Some(c) ==> (permitted(c, cfg) <==> email_permitted(
            email_of(c),
            texts(cfg.allowed_emails@),
            texts(cfg.allowed_domains@),
        )),
{
}

/// Who logged in is shown part by part.
pub proof fn identities_show_their_parts(c: IdTokenClaims)
    ensures
        c@.sub == c.sub@,
        c@.email == opt_text(c.email),
        c@.name == opt_text(c.name),
        c@.exp == c.exp,
{
}

} // verus!
