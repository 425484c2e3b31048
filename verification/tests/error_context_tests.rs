use heirloom_backend::error_context::{
    classify, correlation_id_of, AppError, EnrichExt, EnrichedError, ErrorContext, RequestContext,
    UserContext,
};
use heirloom_backend::models::ApiError;
use heirloom_backend::strmap::StrMap;

#[test]
fn user_context_parses_roles_header() {
    let mut headers = StrMap::new();
    headers.insert("x-user-roles".to_string(), "admin, operator".to_string());
    let ctx = UserContext::from_headers(&headers);
    assert_eq!(ctx.roles, vec!["admin".to_string(), "operator".to_string()]);
}

#[test]
fn enriched_error_preserves_status_mapping() {
    let ctx = ErrorContext::new();
    let err = EnrichedError::new(AppError::NotFound, "not found".to_string(), ctx);
    assert_eq!(err.status, 404);
    assert_eq!(err.code, "not_found");
}

#[test]
fn every_error_has_its_status_and_code() {
    let cases = [
        (AppError::InvalidInput("x".to_string()), 422, "invalid_input"),
        (AppError::Db("x".to_string()), 500, "internal_error"),
        (AppError::DatabaseError, 500, "internal_error"),
        (AppError::TwoFactorRequired, 401, "two_factor_required"),
        (AppError::TwoFactorNotEnabled, 400, "two_factor_not_enabled"),
        (AppError::Api(ApiError::new(418, "teapot", "short")), 418, "teapot"),
    ];
    for (error, status, code) in cases {
        let (s, c) = classify(&error);
        assert_eq!(s, status);
        assert_eq!(c, code);
    }
}

#[test]
fn a_request_keeps_its_correlation_id() {
    let mut headers: StrMap<String> = StrMap::new();
    let fresh = ErrorContext::from_request("GET", "/a", Some("q=1"), &headers);
    assert_eq!(fresh.correlation_id.len(), 36);
    headers.insert("x-correlation-id".to_string(), "abc".to_string());
    headers.insert("x-user-id".to_string(), "alice".to_string());
    let ctx = ErrorContext::from_request("GET", "/a", Some("q=1"), &headers);
    assert_eq!(ctx.correlation_id, "abc");
    let request = ctx.request.as_ref().unwrap();
    assert_eq!(request.method, "GET");
    assert_eq!(request.query, Some("q=1".to_string()));
    assert_eq!(ctx.user.as_ref().unwrap().user_id, Some("alice".to_string()));
    assert_eq!(correlation_id_of(&headers, "x".to_string()), "abc");
}

#[test]
fn a_context_is_built_up() {
    let ctx = ErrorContext::default()
        .with_correlation_id("id")
        .with_request(RequestContext::from_parts("POST", "/b", None))
        .with_user(UserContext::default())
        .capture_stack_trace("trace".to_string());
    let err = AppError::DatabaseError.enrich("down".to_string(), ctx);
    assert_eq!(err.context.correlation_id, "id");
    assert_eq!(err.context.stack_trace, Some("trace".to_string()));
    assert_eq!(err.message, "down");
    assert_eq!(err.status, 500);
}
