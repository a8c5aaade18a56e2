use axum::http::StatusCode;
use table_tv::error::ApiError;

fn status(e: ApiError) -> StatusCode {
    StatusCode::from_u16(e.status_code()).unwrap()
}

#[test]
fn api_error_display() {
    assert_eq!(ApiError::CameraNotFound.to_string(), "Camera not found");
    assert_eq!(ApiError::InvalidCredentials.to_string(), "Invalid credentials");
    assert_eq!(ApiError::BadRequest("bad".to_string()).to_string(), "Bad request: bad");
}

#[test]
fn api_error_into_response_status_codes() {
    assert_eq!(status(ApiError::CameraNotFound), StatusCode::NOT_FOUND);
    assert_eq!(status(ApiError::PoolMatchNotFound), StatusCode::NOT_FOUND);
    assert_eq!(status(ApiError::InvalidCredentials), StatusCode::UNAUTHORIZED);
    assert_eq!(status(ApiError::BadRequest("x".to_string())), StatusCode::BAD_REQUEST);
    assert_eq!(status(ApiError::Forbidden("x".to_string())), StatusCode::FORBIDDEN);
}

#[test]
fn api_error_display_every_variant() {
    let s = |m: &str| m.to_string();
    assert_eq!(ApiError::Unknown(s("boom")).to_string(), "Unknown error occurred: boom");
    assert_eq!(ApiError::InvalidAddress(s("x")).to_string(), "Invalid server address: x");
    assert_eq!(ApiError::Io(s("file not found")).to_string(), "Server I/O error: file not found");
    assert_eq!(ApiError::Db(s("locked")).to_string(), "Database error: locked");
    assert_eq!(ApiError::PoolMatchNotFound.to_string(), "Pool match not found");
    assert_eq!(ApiError::Auth0ClientError(s("k")).to_string(), "Auth0 error: k");
    assert_eq!(ApiError::Forbidden(s("no")).to_string(), "Forbidden: no");
}

#[test]
fn api_error_response_bodies_and_logging() {
    let s = |m: &str| m.to_string();
    assert_eq!(ApiError::BadRequest(s("bad")).response_body(), "bad");
    assert_eq!(ApiError::Forbidden(s("no")).response_body(), "no");
    assert_eq!(ApiError::Auth0ClientError(s("jwk")).response_body(), "jwk");
    assert_eq!(ApiError::CameraNotFound.response_body(), "Camera not found");
    assert_eq!(ApiError::Io(s("disk")).response_body(), "Server I/O error: disk");
    assert_eq!(status(ApiError::Auth0ClientError(s("x"))), StatusCode::INTERNAL_SERVER_ERROR);
    assert_eq!(status(ApiError::Db(s("x"))), StatusCode::INTERNAL_SERVER_ERROR);
    assert!(ApiError::Unknown(s("x")).is_server_error());
    assert!(ApiError::Auth0ClientError(s("x")).is_server_error());
    assert!(!ApiError::InvalidCredentials.is_server_error());
}
