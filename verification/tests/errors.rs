use shorty::domain::RepoError;
use shorty::error::{AppError, AppJson, BodyRejection, ErrorResponse};
use shorty::time::Duration;

fn answer(error: AppError) -> ErrorResponse {
    error.into_response(Some("req-1".to_string()))
}

fn shows(error: AppError, status: u16, code: &str, message: &str) {
    let limited = matches!(error, AppError::RateLimited { .. });
    let r = answer(error);
    assert_eq!(r.status, status);
    assert_eq!(r.body.code, code);
    assert_eq!(r.body.message, message);
    assert_eq!(r.body.request_id.as_deref(), Some("req-1"));
    assert_eq!(r.retry_after.is_some(), limited);
}

fn invalid_body(status: u16) -> AppError {
    AppError::InvalidBody { status, message: "broken".to_string() }
}

#[test]
fn every_error_has_its_answer() {
    shows(AppError::NotFound, 404, "not_found", "resource not found");
    shows(AppError::CodeTaken, 409, "code_taken", "code is already taken");
    shows(
        AppError::RateLimited { retry_after: Duration::from_secs(5) },
        429,
        "rate_limited",
        "rate limit exceeded, retry later",
    );
    shows(AppError::Validation("no".to_string()), 422, "validation_error", "no");
    shows(invalid_body(413), 413, "payload_too_large", "broken");
    shows(invalid_body(415), 415, "unsupported_media_type", "broken");
    shows(invalid_body(422), 422, "validation_error", "broken");
    shows(invalid_body(400), 400, "bad_request", "broken");
    shows(invalid_body(429), 429, "bad_request", "broken");
    shows(AppError::Internal("disk on fire".to_string()), 500, "internal", "internal error");
}

#[test]
fn request_id_may_be_absent() {
    assert_eq!(AppError::NotFound.into_response(None).body.request_id, None);
}

#[test]
fn retry_after_is_in_whole_seconds_and_at_least_one() {
    let header = |secs: u64, nanos: u32| {
        answer(AppError::RateLimited { retry_after: Duration::new(secs, nanos) }).retry_after
    };
    assert_eq!(header(0, 0).as_deref(), Some("1"));
    assert_eq!(header(0, 999_999_999).as_deref(), Some("1"));
    assert_eq!(header(1, 999_999_999).as_deref(), Some("1"));
    assert_eq!(header(59, 1).as_deref(), Some("59"));
    assert_eq!(header(60, 0).as_deref(), Some("60"));
}

#[test]
fn refusals_of_the_repository_become_errors() {
    assert!(matches!(AppError::from(RepoError::NotFound("x".to_string())), AppError::NotFound));
    assert!(matches!(AppError::from(RepoError::CodeTaken("x".to_string())), AppError::CodeTaken));
}

#[test]
fn rejected_bodies_keep_status_and_message() {
    let read: Result<u32, BodyRejection> =
        Err(BodyRejection { status: 413, message: "too long".to_string() });
    match AppJson::from_request(read) {
        Err(AppError::InvalidBody { status, message }) => {
            assert_eq!(status, 413);
            assert_eq!(message, "too long");
        }
        _ => panic!("the body was rejected"),
    }
    match AppJson::from_request(Ok(7u32)) {
        Ok(AppJson(value)) => assert_eq!(value, 7),
        Err(_) => panic!("the body was read"),
    }
}
