//! The error taxonomy of the service.
//!
//! Every component constructs these variants explicitly; raw lower-level
//! error strings are never forwarded to a client. Operating-system error
//! kinds are mapped deterministically onto the taxonomy.

use vstd::prelude::*;

verus! {

/// Everything that can go wrong while serving a request.
#[derive(Clone, Copy, Debug, PartialEq, Eq, Structural)]
pub enum ServiceError {
    /// A failure that has no more precise classification.
    InternalServerError,
    /// The value entered for email is not an email address.
    NotAnEmail,
    /// A malformed request.
    BadRequest,
    /// The requested file does not exist.
    FileNotFound,
    /// The target file already exists.
    FileExists,
    /// The request tried to leave the user's storage subtree.
    PermissionDenied,
    /// A mutating file operation was attempted while the server is read-only.
    FSReadOnly,
    /// Wrong user name or password.
    InvalidCredentials,
    /// The requested user name is already registered.
    UsernameTaken,
    /// The requested email address is already registered.
    EmailTaken,
    /// No account matches the given identifier.
    AccountNotFound,
    /// The two passwords of a registration do not agree.
    PasswordsDontMatch,
    /// The session token has expired.
    TokenExpired,
    /// The session token is malformed or its signature does not verify.
    TokenInvalid,
    /// The request carried no session token at all.
    TokenMissing,
}

pub type ServiceResult<V> = Result<V, ServiceError>;

/// The kind of an operating-system error, as far as the taxonomy cares.
#[derive(Clone, Copy, Debug, PartialEq, Eq, Structural)]
pub enum IoKind {
    NotFound,
    PermissionDenied,
    AlreadyExists,
    Other,
}

impl ServiceError {
    /// The HTTP status code that the error maps to.
    pub fn status_code(&self) -> (code: u16)
        ensures
            code == self.spec_status_code(),
    {
        match self {
            ServiceError::InternalServerError => 500,
            ServiceError::AccountNotFound => 404,
            ServiceError::BadRequest => 400,
            ServiceError::NotAnEmail => 400,
            ServiceError::PasswordsDontMatch => 400,
            ServiceError::UsernameTaken => 400,
            ServiceError::EmailTaken => 400,
            ServiceError::FileNotFound => 404,
            ServiceError::FileExists => 405,
            ServiceError::PermissionDenied => 401,
            ServiceError::FSReadOnly => 405,
            ServiceError::InvalidCredentials => 401,
            ServiceError::TokenExpired => 401,
            ServiceError::TokenInvalid => 401,
            ServiceError::TokenMissing => 401,
        }
    }

    /// The status code, as a spec-level function of the variant.
    pub open spec fn spec_status_code(&self) -> u16 {
        match self {
            ServiceError::InternalServerError => 500u16,
            ServiceError::AccountNotFound => 404u16,
            ServiceError::BadRequest => 400u16,
            ServiceError::NotAnEmail => 400u16,
            ServiceError::PasswordsDontMatch => 400u16,
            ServiceError::UsernameTaken => 400u16,
            ServiceError::EmailTaken => 400u16,
            ServiceError::FileNotFound => 404u16,
            ServiceError::FileExists => 405u16,
            ServiceError::PermissionDenied => 401u16,
            ServiceError::FSReadOnly => 405u16,
            ServiceError::InvalidCredentials => 401u16,
            ServiceError::TokenExpired => 401u16,
            ServiceError::TokenInvalid => 401u16,
            ServiceError::TokenMissing => 401u16,
        }
    }

    /// The generic taxonomy message shown to a client.
    pub fn message(&self) -> (msg: &'static str)
        ensures
            msg@ == self.spec_message(),
    {
        match self {
            ServiceError::InternalServerError => "internal server error",
            ServiceError::NotAnEmail => "The value you entered for email is not an email",
            ServiceError::BadRequest => "Bad request",
            ServiceError::FileNotFound => "File not found",
            ServiceError::FileExists => "File exists",
            ServiceError::PermissionDenied => "Permission denied",
            ServiceError::FSReadOnly => "Server in readonly mode",
            ServiceError::InvalidCredentials => "Invalid credentials",
            ServiceError::UsernameTaken => "Username not available",
            ServiceError::EmailTaken => "Email not available",
            ServiceError::AccountNotFound => "Account not found",
            ServiceError::PasswordsDontMatch => "Passwords don't match",
            ServiceError::TokenExpired => "Expired token",
            ServiceError::TokenInvalid => "Invalid token",
            ServiceError::TokenMissing => "No authorization token was sent",
        }
    }

    /// The taxonomy message, as a spec-level function of the variant.
    pub open spec fn spec_message(&self) -> Seq<char> {
        match self {
            ServiceError::InternalServerError => "internal server error"@,
            ServiceError::NotAnEmail => "The value you entered for email is not an email"@,
            ServiceError::BadRequest => "Bad request"@,
            ServiceError::FileNotFound => "File not found"@,
            ServiceError::FileExists => "File exists"@,
            ServiceError::PermissionDenied => "Permission denied"@,
            ServiceError::FSReadOnly => "Server in readonly mode"@,
            ServiceError::InvalidCredentials => "Invalid credentials"@,
            ServiceError::UsernameTaken => "Username not available"@,
            ServiceError::EmailTaken => "Email not available"@,
            ServiceError::AccountNotFound => "Account not found"@,
            ServiceError::PasswordsDontMatch => "Passwords don't match"@,
            ServiceError::TokenExpired => "Expired token"@,
            ServiceError::TokenInvalid => "Invalid token"@,
            ServiceError::TokenMissing => "No authorization token was sent"@,
        }
    }
}

impl ServiceError {
    /// The JSON body a client receives for this error: the taxonomy
    /// message and nothing else, so no internal detail ever leaks.
    pub fn error_body(&self) -> (body: String)
        ensures
            body@ == "{\"error\":\""@ + self.spec_message() + "\"}"@,
    {
        String::from_str("{\"error\":\"").concat(self.message()).concat("\"}")
    }
}

/// How each operating-system error kind enters the taxonomy.
pub open spec fn spec_io_error(kind: IoKind) -> ServiceError {
    match kind {
        IoKind::NotFound => ServiceError::FileNotFound,
        IoKind::PermissionDenied => ServiceError::PermissionDenied,
        IoKind::AlreadyExists => ServiceError::FileExists,
        IoKind::Other => ServiceError::InternalServerError,
    }
}

/// Maps an operating-system error kind onto the taxonomy.
pub fn io_error_to_service_error(kind: IoKind) -> (e: ServiceError)
    ensures
        e == spec_io_error(kind),
{
    match kind {
        IoKind::NotFound => ServiceError::FileNotFound,
        IoKind::PermissionDenied => ServiceError::PermissionDenied,
        IoKind::AlreadyExists => ServiceError::FileExists,
        IoKind::Other => ServiceError::InternalServerError,
    }
}

} // verus!
