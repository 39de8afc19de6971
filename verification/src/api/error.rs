//! The errors of the API, and how each is answered.

use crate::json::{Json, JsonModel};
use crate::ordered::with_entry;
use vstd::prelude::*;

verus! {

/// Why a request was not served.
#[derive(Debug, Clone, PartialEq, Eq)]
pub enum ApiError {
    Unauthorized,
    Forbidden,
    /// The upstream failed, with its own account of why.
    ProviderError(String),
    InvalidRequest(String),
    PolicyDenied { reason: String, status: u16 },
    /// A model or provider that an operator has taken out of rotation. Nothing
    /// was called upstream, so this is no provider error.
    Disabled(String),
    Internal,
}

/// A request that named an experiment it cannot be bound to: a bad header, an
/// unknown id, or a caller that is not on the allow list.
#[derive(Debug, Clone, PartialEq, Eq)]
pub struct BindError(pub String);

/// A model or provider out of rotation, with the words that say so.
#[derive(Debug, Clone, PartialEq, Eq)]
pub struct Unavailable(pub String);

/// How an error is answered: HTTP status, message and machine-readable code.
pub struct Answer {
    pub status: u16,
    pub message: String,
    pub code: String,
}

/// The status codes of three digits.
pub open spec fn is_status_code(n: int) -> bool {
    100 <= n < 1000
}

impl ApiError {
    /// The HTTP status of the answer. A denial keeps the status the policy gave
    /// it, or 429 where that is no status code.
    pub open spec fn answer_status(&self) -> u16 {
        match self {
            ApiError::Unauthorized => 401,
            ApiError::Forbidden => 403,
            ApiError::ProviderError(_) => 502,
            ApiError::InvalidRequest(_) => 400,
            ApiError::PolicyDenied { status, .. } => if is_status_code(*status as int) {
                *status
            } else {
                429
            },
            ApiError::Disabled(_) => 403,
            ApiError::Internal => 500,
        }
    }

    /// What the caller is told.
    pub open spec fn answer_message(&self) -> Seq<char> {
        match self {
            ApiError::Unauthorized => "unauthorized"@,
            ApiError::Forbidden => "forbidden"@,
            ApiError::ProviderError(e) => e@,
            ApiError::InvalidRequest(msg) => msg@,
            ApiError::PolicyDenied { reason, .. } => reason@,
            ApiError::Disabled(msg) => msg@,
            ApiError::Internal => "internal error"@,
        }
    }

    /// The machine-readable code of the answer.
    pub open spec fn answer_code(&self) -> Seq<char> {
        match self {
            ApiError::Unauthorized => "auth_error"@,
            ApiError::Forbidden => "forbidden"@,
            ApiError::ProviderError(_) => "provider_error"@,
            ApiError::InvalidRequest(_) => "invalid_request"@,
            ApiError::PolicyDenied { .. } => "policy_denied"@,
            ApiError::Disabled(_) => "model_disabled"@,
            ApiError::Internal => "internal_error"@,
        }
    }

    /// The error in words, as it is logged and stored.
    pub open spec fn words(&self) -> Seq<char> {
        match self {
            ApiError::Unauthorized => "unauthorized"@,
            ApiError::Forbidden => "forbidden"@,
            ApiError::ProviderError(e) => "provider error: "@ + e@,
            ApiError::InvalidRequest(msg) => "invalid request: "@ + msg@,
            ApiError::PolicyDenied { reason, .. } => "policy denied: "@ + reason@,
            ApiError::Disabled(msg) => msg@,
            ApiError::Internal => "internal error"@,
        }
    }

    pub fn answer(&self) -> (r: Answer)
        ensures
            r.status == self.answer_status(),
            r.message@ == self.answer_message(),
            r.code@ == self.answer_code(),
    {
        match self {
            ApiError::Unauthorized => Answer {
                status: 401,
                message: "unauthorized".to_owned(),
                code: "auth_error".to_owned(),
            },
            ApiError::Forbidden => Answer {
                status: 403,
                message: "forbidden".to_owned(),
                code: "forbidden".to_owned(),
            },
            ApiError::ProviderError(e) => Answer {
                status: 502,
                message: e.clone(),
                code: "provider_error".to_owned(),
            },
            ApiError::InvalidRequest(msg) => Answer {
                status: 400,
                message: msg.clone(),
                code: "invalid_request".to_owned(),
            },
            ApiError::PolicyDenied { reason, status } => Answer {
                status: if 100 <= *status && *status < 1000 {
                    *status
                } else {
                    429
                },
                message: reason.clone(),
                code: "policy_denied".to_owned(),
            },
            ApiError::Disabled(msg) => Answer {
                status: 403,
                message: msg.clone(),
                code: "model_disabled".to_owned(),
            },
            ApiError::Internal => Answer {
                status: 500,
                message: "internal error".to_owned(),
                code: "internal_error".to_owned(),
            },
        }
    }

    /// The error in words.
    pub fn describe(&self) -> (r: String)
        ensures
            r@ == self.words(),
    {
        match self {
            ApiError::Unauthorized => "unauthorized".to_owned(),
            ApiError::Forbidden => "forbidden".to_owned(),
            ApiError::ProviderError(e) => "provider error: ".to_owned().concat(e.as_str()),
            ApiError::InvalidRequest(msg) => "invalid request: ".to_owned().concat(msg.as_str()),
            ApiError::PolicyDenied { reason, .. } => "policy denied: ".to_owned().concat(
                reason.as_str(),
            ),
            ApiError::Disabled(msg) => msg.clone(),
            ApiError::Internal => "internal error".to_owned(),
        }
    }
}

/// The JSON body of an error answer: an object `error` with the message, and
/// the code as both its type and its code.
pub open spec fn error_body_model(message: Seq<char>, code: Seq<char>) -> JsonModel {
    let inner = with_entry(
        with_entry(
            with_entry(Seq::empty(), "message"@, JsonModel::Str(message)),
            "type"@,
            JsonModel::Str(code),
        ),
        "code"@,
        JsonModel::Str(code),
    );
    JsonModel::Obj(with_entry(Seq::empty(), "error"@, JsonModel::Obj(inner)))
}

/// The JSON body of the answer to `err`.
pub fn error_body(err: &ApiError) -> (r: Json)
    ensures
        r.model() == error_body_model(err.answer_message(), err.answer_code()),
        r.wf(),
{
    let a = err.answer();
    let code = a.code.clone();
    let inner = Json::object().with("message", Json::Str(a.message)).with(
        "type",
        Json::Str(a.code),
    ).with("code", Json::Str(code));
    Json::object().with("error", inner)
}

impl vstd::std_specs::convert::FromSpecImpl<BindError> for ApiError {
    open spec fn obeys_from_spec() -> bool {
        true
    }

    open spec fn from_spec(e: BindError) -> ApiError {
        ApiError::InvalidRequest(e.0)
    }
}

impl From<BindError> for ApiError {
    fn from(e: BindError) -> (r: ApiError) {
        ApiError::InvalidRequest(e.0)
    }
}

impl vstd::std_specs::convert::FromSpecImpl<Unavailable> for ApiError {
    open spec fn obeys_from_spec() -> bool {
        true
    }

    open spec fn from_spec(u: Unavailable) -> ApiError {
        ApiError::Disabled(u.0)
    }
}

impl From<Unavailable> for ApiError {
    fn from(u: Unavailable) -> (r: ApiError) {
        ApiError::Disabled(u.0)
    }
}

/// Every error is answered with the status of a refusal or a failure, except
/// where a policy asked for another status code.
pub proof fn errors_are_answered_as_errors(err: ApiError)
    requires
        err matches ApiError::PolicyDenied { status, .. } ==> 400 <= status < 600,
    ensures
        400 <= err.answer_status() < 600,
{
}

/// The body of a refusal says, under "error", what went wrong and of what kind it is.
pub proof fn refusals_say_what_went_wrong(message: Seq<char>, code: Seq<char>)
    ensures
        error_body_model(message, code).at("error"@).at("message"@) == JsonModel::Str(message),
        error_body_model(message, code).at("error"@).at("type"@) == JsonModel::Str(code),
        error_body_model(message, code).at("error"@).at("code"@) == JsonModel::Str(code),
{
    broadcast use {
        crate::ordered::entries_are_found,
        crate::ordered::nothing_is_found_in_nothing,
    };

    reveal_strlit("error");
    reveal_strlit("message");
    reveal_strlit("type");
    reveal_strlit("code");
    assert("error"@.len() == 5);
    assert("message"@.len() == 7);
    assert("type"@.len() == 4 && "type"@[0] == 't');
    assert("code"@.len() == 4 && "code"@[0] == 'c');
}

/// What a provider, a policy, an operator or a bad request said is told in its own words,
/// each kind under its own status and code; what went wrong inside is never told.
pub proof fn every_kind_of_error_has_its_answer(err: ApiError)
    ensures
        err matches ApiError::ProviderError(e) ==> err.answer_message() == e@ && err.answer_status() == 502
            && err.answer_code() == "provider_error"@ && err.words() == "provider error: "@ + e@,
        err matches ApiError::InvalidRequest(m) ==> err.answer_message() == m@ && err.answer_status() == 400
            && err.answer_code() == "invalid_request"@ && err.words() == "invalid request: "@ + m@,
        err matches ApiError::PolicyDenied { reason, status } ==> err.answer_message() == reason@
            && err.answer_code() == "policy_denied"@ && err.words() == "policy denied: "@ + reason@ && (100
            <= status < 1000 ==> err.answer_status() == status),
        err matches ApiError::Disabled(m) ==> err.answer_message() == m@ && err.answer_status() == 403
            && err.answer_code() == "model_disabled"@ && err.words() == m@,
        err is Unauthorized ==> err.answer_status() == 401 && err.answer_code() == "auth_error"@
            && err.answer_message() == "unauthorized"@,
        err is Forbidden ==> err.answer_status() == 403 && err.answer_code() == "forbidden"@
            && err.answer_message() == "forbidden"@,
        err is Internal ==> err.answer_status() == 500 && err.answer_code() == "internal_error"@
            && err.answer_message() == "internal error"@ && err.words() == "internal error"@,
{
}

/// A request that cannot be bound is told why, and what is out of rotation is told as that.
pub proof fn errors_keep_their_words(b: BindError, u: Unavailable)
    ensures
        <ApiError as vstd::std_specs::convert::FromSpec<BindError>>::from_spec(b)
            == ApiError::InvalidRequest(b.0),
        <ApiError as vstd::std_specs::convert::FromSpec<Unavailable>>::from_spec(u) == ApiError::Disabled(
            u.0,
        ),
        is_status_code(100) && is_status_code(999) && !is_status_code(99) && !is_status_code(1000),
{
}

} // verus!
