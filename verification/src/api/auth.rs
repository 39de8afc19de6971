//! Who calls: the API key of a request, and the user it belongs to.

use crate::api::error::ApiError;
use crate::api::headers::{header, header_text};
use crate::codec::{hash_token, token_hash};
use crate::records::User;
use crate::text::{after_prefix, has_prefix};
use axum::http::{HeaderMap, HeaderValue};
use vstd::prelude::*;

verus! {

/// A user whose key was accepted.
#[derive(Debug, Clone, PartialEq, Eq)]
pub struct AuthenticatedUser(pub User);

/// The token of a request: what follows `Bearer ` in its authorization.
pub open spec fn bearer_of(h: HeaderMap<HeaderValue>) -> Option<Seq<char>> {
    match header(h, "Authorization"@) {
        Some(v) => if has_prefix(v, "Bearer "@) {
            Some(v.skip("Bearer "@.len() as int))
        } else {
            None
        },
        None => None,
    }
}

pub fn bearer_token(headers: &HeaderMap<HeaderValue>) -> (r: Option<String>)
    ensures
        match r {
            Some(t) => bearer_of(*headers) == Some(t@),
            None => bearer_of(*headers) is None,
        },
{
    match header_text(headers, "Authorization") {
        Some(v) => match after_prefix(v.as_str(), "Bearer ") {
            Some(t) => Some(t.to_owned()),
            None => None,
        },
        None => None,
    }
}

/// The hash under which the key of a request is looked up.
pub fn key_hash(headers: &HeaderMap<HeaderValue>) -> (r: Result<String, ApiError>)
    ensures
        match bearer_of(*headers) {
            Some(t) => r matches Ok(h) && h@ == token_hash(t),
            None => r == Err::<String, ApiError>(ApiError::Unauthorized),
        },
{
    match bearer_token(headers) {
        Some(t) => Ok(hash_token(t.as_str())),
        None => Err(ApiError::Unauthorized),
    }
}

/// A key that was found.
#[derive(Debug, Clone, PartialEq, Eq)]
pub struct FoundKey {
    pub id: i64,
    pub user_id: i64,
}

/// What is to be looked up next.
#[derive(Debug, Clone, PartialEq, Eq)]
pub enum NextLookup {
    /// The user with this id, to whom the key belongs.
    UserOfKey { user_id: i64, key_id: i64 },
    /// The user that the key itself is stored with, as of old.
    UserByKey,
}

/// After the lookup among the API keys: the key's user, or else the older way.
pub fn after_key_lookup(found: Result<Option<FoundKey>, String>) -> (r: Result<NextLookup, ApiError>)
    ensures
        match found {
            Err(_) => r == Err::<NextLookup, ApiError>(ApiError::Internal),
            Ok(Some(k)) => r == Ok::<NextLookup, ApiError>(
                NextLookup::UserOfKey { user_id: k.user_id, key_id: k.id },
            ),
            Ok(None) => r == Ok::<NextLookup, ApiError>(NextLookup::UserByKey),
        },
{
    match found {
        Err(_) => Err(ApiError::Internal),
        Ok(Some(k)) => Ok(NextLookup::UserOfKey { user_id: k.user_id, key_id: k.id }),
        Ok(None) => Ok(NextLookup::UserByKey),
    }
}

/// After the lookup of the user: there, and enabled. The user is marked with the
/// key that it came with.
pub fn after_user_lookup(found: Result<Option<User>, String>, key_id: Option<i64>) -> (r: Result<
    AuthenticatedUser,
    ApiError,
>)
    ensures
        match found {
            Err(_) => r == Err::<AuthenticatedUser, ApiError>(ApiError::Internal),
            Ok(None) => r == Err::<AuthenticatedUser, ApiError>(ApiError::Unauthorized),
            Ok(Some(u)) => if !u.enabled {
                r == Err::<AuthenticatedUser, ApiError>(ApiError::Unauthorized)
            } else {
                r == Ok::<AuthenticatedUser, ApiError>(
                    AuthenticatedUser(
                        match key_id {
                            Some(id) => User { api_key_id: Some(id), ..u },
                            None => u,
                        },
                    ),
                )
            },
        },
{
    match found {
        Err(_) => Err(ApiError::Internal),
        Ok(None) => Err(ApiError::Unauthorized),
        Ok(Some(u)) => {
            if !u.enabled {
                return Err(ApiError::Unauthorized);
            }
            let mut user = u;
            if let Some(id) = key_id {
                user.api_key_id = Some(id);
            }
            Ok(AuthenticatedUser(user))
        },
    }
}

/// A request bears what stands behind the word in its header, and nothing where the header is
/// missing or begins otherwise.
pub proof fn tokens_stand_behind_their_word(h: HeaderMap<HeaderValue>, v: Seq<char>, t: Seq<char>)
    requires
        header(h, "Authorization"@) == Some(v),
    ensures
        v == "Bearer "@ + t ==> bearer_of(h) == Some(t),
        bearer_of(h) == Some(t) ==> v == "Bearer "@ + t,
        !has_prefix(v, "Bearer "@) ==> bearer_of(h) is None,
{
    let w = "Bearer "@;
    if v == w + t {
        assert(v.take(w.len() as int) =~= w);
        assert(v.skip(w.len() as int) =~= t);
    }
    if has_prefix(v, w) {
        assert(v =~= w + v.skip(w.len() as int));
    }
}

} // verus!
