//! API errors: what each error says, and which HTTP status and body a
//! response built from it carries.
use vstd::prelude::*;

verus! {

/// An error of the API. The variants that wrap a failure of another part
/// (server address, I/O, database) keep that failure's message.
#[derive(Clone, Debug)]
pub enum ApiError {
    Unknown(String),
    InvalidAddress(String),
    Io(String),
    Db(String),
    CameraNotFound,
    PoolMatchNotFound,
    InvalidCredentials,
    Auth0ClientError(String),
    BadRequest(String),
    Forbidden(String),
}

/// What an error says (its display text).
pub open spec fn error_text(e: ApiError) -> Seq<char> {
    match e {
        ApiError::Unknown(s) => "Unknown error occurred: "@ + s@,
        ApiError::InvalidAddress(s) => "Invalid server address: "@ + s@,
        ApiError::Io(s) => "Server I/O error: "@ + s@,
        ApiError::Db(s) => "Database error: "@ + s@,
        ApiError::CameraNotFound => "Camera not found"@,
        ApiError::PoolMatchNotFound => "Pool match not found"@,
        ApiError::InvalidCredentials => "Invalid credentials"@,
        ApiError::Auth0ClientError(s) => "Auth0 error: "@ + s@,
        ApiError::BadRequest(s) => "Bad request: "@ + s@,
        ApiError::Forbidden(s) => "Forbidden: "@ + s@,
    }
}

/// The HTTP status code of the response for an error.
pub open spec fn error_status(e: ApiError) -> u16 {
    match e {
        ApiError::CameraNotFound => 404,
        ApiError::PoolMatchNotFound => 404,
        ApiError::InvalidCredentials => 401,
        ApiError::Auth0ClientError(_) => 500,
        ApiError::BadRequest(_) => 400,
        ApiError::Forbidden(_) => 403,
        _ => 500,
    }
}

/// The body of the response for an error: the bare message for the errors
/// that carry one for the client, else the error's display text.
pub open spec fn error_body(e: ApiError) -> Seq<char> {
    match e {
        ApiError::CameraNotFound => "Camera not found"@,
        ApiError::PoolMatchNotFound => "Pool match not found"@,
        ApiError::InvalidCredentials => "Invalid credentials"@,
        ApiError::Auth0ClientError(m) => m@,
        ApiError::BadRequest(m) => m@,
        ApiError::Forbidden(m) => m@,
        _ => error_text(e),
    }
}

fn prefixed(prefix: &str, s: &String) -> (r: String)
    ensures
        r@ == prefix@ + s@,
{
    let mut r = String::from_str(prefix);
    r.append(s.as_str());
    r
}

impl ApiError {
    /// What the error says.
    pub fn to_string(&self) -> (r: String)
        ensures
            r@ == error_text(*self),
    {
        match self {
            ApiError::Unknown(s) => prefixed("Unknown error occurred: ", s),
            ApiError::InvalidAddress(s) => prefixed("Invalid server address: ", s),
            ApiError::Io(s) => prefixed("Server I/O error: ", s),
            ApiError::Db(s) => prefixed("Database error: ", s),
            ApiError::CameraNotFound => String::from_str("Camera not found"),
            ApiError::PoolMatchNotFound => String::from_str("Pool match not found"),
            ApiError::InvalidCredentials => String::from_str("Invalid credentials"),
            ApiError::Auth0ClientError(s) => prefixed("Auth0 error: ", s),
            ApiError::BadRequest(s) => prefixed("Bad request: ", s),
            ApiError::Forbidden(s) => prefixed("Forbidden: ", s),
        }
    }

    /// The HTTP status code of the response for this error.
    pub fn status_code(&self) -> (r: u16)
        ensures
            r == error_status(*self),
    {
        match self {
            ApiError::CameraNotFound => 404,
            ApiError::PoolMatchNotFound => 404,
            ApiError::InvalidCredentials => 401,
            ApiError::Auth0ClientError(_) => 500,
            ApiError::BadRequest(_) => 400,
            ApiError::Forbidden(_) => 403,
            _ => 500,
        }
    }

    /// The body of the response for this error.
    pub fn response_body(&self) -> (r: String)
        ensures
            r@ == error_body(*self),
    {
        match self {
            ApiError::CameraNotFound => String::from_str("Camera not found"),
            ApiError::PoolMatchNotFound => String::from_str("Pool match not found"),
            ApiError::InvalidCredentials => String::from_str("Invalid credentials"),
            ApiError::Auth0ClientError(m) => m.clone(),
            ApiError::BadRequest(m) => m.clone(),
            ApiError::Forbidden(m) => m.clone(),
            _ => self.to_string(),
        }
    }

    /// Whether the response for this error is logged as a server error
    /// (those are the responses with status 500).
    pub fn is_server_error(&self) -> (r: bool)
        ensures
            r == (error_status(*self) == 500),
    {
        self.status_code() == 500
    }
}

/// Every error answers with one of the statuses 400, 401, 403, 404 or 500.
pub proof fn lemma_error_status_is_known(e: ApiError)
    ensures
        error_status(e) == 400 || error_status(e) == 401 || error_status(e) == 403
            || error_status(e) == 404 || error_status(e) == 500,
{
}

/// A client error (status below 500) answers with exactly the message the
/// error carries for the client; a server error answers with what the error
/// says.
pub proof fn lemma_error_body(e: ApiError)
    ensures
        error_status(e) == 500 && !(e is Auth0ClientError) ==> error_body(e) == error_text(e),
        e matches ApiError::BadRequest(m) ==> error_body(e) == m@ && error_status(e) == 400,
        e matches ApiError::Forbidden(m) ==> error_body(e) == m@ && error_status(e) == 403,
        e matches ApiError::Auth0ClientError(m) ==> error_body(e) == m@ && error_status(e) == 500,
{
}

} // verus!
