use axum::http::HeaderMap;
use modelrouter::api::error::{error_body, ApiError};
use modelrouter::api::failure_log::{
    context_from_request, failure_record, stage_for, status_for, FailureStage,
};
use modelrouter::json::Json;
use modelrouter::records::User;

#[test]
fn unknown_provider_is_a_resolve_failure_not_a_provider_failure() {
    let err = ApiError::ProviderError("Unknown provider: anthropic".to_string());
    assert_eq!(stage_for(&err), FailureStage::Resolve);
}

#[test]
fn missing_embedding_adapter_is_a_resolve_failure() {
    let err = ApiError::ProviderError("No embedding adapter for provider: ollama".to_string());
    assert_eq!(stage_for(&err), FailureStage::Resolve);
}

#[test]
fn a_genuine_upstream_error_stays_a_provider_failure() {
    let err = ApiError::ProviderError("upstream returned 500".to_string());
    assert_eq!(stage_for(&err), FailureStage::Provider);
}

#[test]
fn budget_denial_is_a_policy_failure_and_keeps_its_status() {
    let err = ApiError::PolicyDenied { reason: "monthly budget exceeded".into(), status: 429 };
    assert_eq!(stage_for(&err), FailureStage::Policy);
    assert_eq!(status_for(&err), 429);
}

#[test]
fn every_error_has_a_stage_and_a_status() {
    let cases = [
        (ApiError::Unauthorized, FailureStage::Policy, 401),
        (ApiError::Forbidden, FailureStage::Policy, 403),
        (ApiError::Disabled("off".into()), FailureStage::Policy, 403),
        (ApiError::InvalidRequest("bad".into()), FailureStage::Request, 400),
        (ApiError::ProviderError("boom".into()), FailureStage::Provider, 502),
        (ApiError::Internal, FailureStage::Internal, 500),
    ];
    for (err, stage, status) in cases {
        assert_eq!(stage_for(&err), stage);
        assert_eq!(status_for(&err), status);
        assert_eq!(err.answer().status as i64, status);
    }
}

#[test]
fn an_odd_denial_is_answered_as_too_many_requests() {
    let err = ApiError::PolicyDenied { reason: "no".into(), status: 7 };
    assert_eq!(err.answer().status, 429);
    assert_eq!(status_for(&err), 7);
}

#[test]
fn an_error_body_has_a_message_and_a_code() {
    let body = error_body(&ApiError::InvalidRequest("bad".into()));
    assert_eq!(
        body.to_text(),
        r#"{"error":{"code":"invalid_request","message":"bad","type":"invalid_request"}}"#
    );
}

fn user() -> User {
    User {
        id: 7,
        name: "ada".into(),
        email: None,
        group_name: None,
        enabled: true,
        created_at: String::new(),
        api_key_id: Some(3),
        api_key_project: Some("p".into()),
        session_window_secs: None,
        metadata: String::new(),
    }
}

#[test]
fn a_failure_keeps_what_was_known() {
    let body =
        Json::parse(r#"{"model":"fast","attribution":{"correlation_id":"r","tags":{"k":"v"}}}"#)
            .unwrap();
    let ctx = context_from_request(
        "/v1/chat/completions",
        &user(),
        &HeaderMap::new(),
        &body,
        "default",
        "openai".into(),
        "gpt".into(),
    );
    let row = failure_record(ctx, &ApiError::ProviderError("boom".into()));
    assert_eq!(row.request_model, "fast");
    assert_eq!(row.attribution_correlation_id.as_deref(), Some("r"));
    assert_eq!(row.attribution_tags, r#"{"k":"v"}"#);
    assert_eq!(row.error_message, "provider error: boom");
    assert_eq!(row.status_code, Some(502));
    assert_eq!(row.project.as_deref(), Some("p"));
}

#[test]
fn an_invalid_attribution_does_not_prevent_the_record() {
    let body = Json::parse(r#"{"attribution":5}"#).unwrap();
    let ctx = context_from_request(
        "/v1/messages",
        &user(),
        &HeaderMap::new(),
        &body,
        "default",
        "openai".into(),
        "gpt".into(),
    );
    assert_eq!(ctx.request_model, "default");
    assert_eq!(ctx.attribution_correlation_id, None);
    assert_eq!(ctx.attribution_tags, "{}");
}
