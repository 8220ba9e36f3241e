//! The API's errors, their messages, and the HTTP responses they become.
use vstd::prelude::*;

verus! {

/// An error met while setting the service up; it is never answered over HTTP.
#[derive(Clone, Copy, PartialEq, Eq, Structural, Debug)]
pub enum SetupError {
    ParsingDatabasePathFailed,
}

impl SetupError {
    /// The error's message.
    pub fn message(&self) -> (r: &'static str)
        ensures
            r@ == "failed to parse the database path into a string"@,
    {
        match self {
            SetupError::ParsingDatabasePathFailed => "failed to parse the database path into a string",
        }
    }
}

/// An error met while answering a request.  Variants that wrap an error of
/// another component carry that error's message.
#[derive(Clone, Debug)]
pub enum AppError {
    Anyhow(String),
    BadMessageSize,
    DatabaseError(String),
    LoadingKeysFailed(String),
    UntrustedKeyError(String),
    HexParseError(String),
    Base64Decode(String),
    SignatureVerificationFailed,
    JournalistIdNotFound,
    JournalistDescriptionTooLong,
    CommonError(String),
    SigningKeyNotFound,
    NoOrganizationKeys,
    EnvVariableNotFound(String),
    KeyRotationTooRecent,
    KinesisStreamPut,
}

/// The error's message, as it is logged.
pub open spec fn app_error_message_spec(e: AppError) -> Seq<char> {
    match e {
        AppError::Anyhow(_) => "error"@,
        AppError::BadMessageSize => "bad message size"@,
        AppError::DatabaseError(_) => "database error"@,
        AppError::LoadingKeysFailed(m) => "loading keys failed "@ + m@,
        AppError::UntrustedKeyError(_) => "parsing untrusted key failed"@,
        AppError::HexParseError(_) => "failed to parse hex"@,
        AppError::Base64Decode(_) => "failed to parse hex"@,
        AppError::SignatureVerificationFailed => "signature verification failed"@,
        AppError::JournalistIdNotFound => "journalist id not found"@,
        AppError::JournalistDescriptionTooLong => "journalist description too long"@,
        AppError::CommonError(m) => "CoverDrop common error: "@ + m@,
        AppError::SigningKeyNotFound => "Form signing key not found"@,
        AppError::NoOrganizationKeys => "No organization keys"@,
        AppError::EnvVariableNotFound(v) => "Environment variable not found: "@ + v@,
        AppError::KeyRotationTooRecent => "key has been uploaded too recently"@,
        AppError::KinesisStreamPut => "failed to put message on kinesis stream"@,
    }
}

/// The HTTP status code and the message that the client receives.
pub open spec fn app_error_response_spec(e: AppError) -> (u16, Seq<char>) {
    match e {
        AppError::BadMessageSize => (400, "bad message size"@),
        AppError::DatabaseError(_) => (500, "database error"@),
        AppError::LoadingKeysFailed(_) => (500, "loading keys from disk failed"@),
        AppError::UntrustedKeyError(_) => (500, "failed to convert untrusted keys to verified keys"@),
        AppError::HexParseError(_) => (500, "failed to parse hex"@),
        AppError::SignatureVerificationFailed => (401, "signature verification failed"@),
        AppError::JournalistIdNotFound => (404, "journalist id key not found"@),
        AppError::JournalistDescriptionTooLong => (400, "journalist description too long"@),
        AppError::Base64Decode(_) => (400, "Failed to decode base64"@),
        AppError::CommonError(_) => (500, "Internal server error"@),
        AppError::Anyhow(_) => (500, "Internal server error"@),
        AppError::SigningKeyNotFound => (
            404,
            "Signing key not found in API database, it is either expired or never existed"@,
        ),
        AppError::NoOrganizationKeys => (500, "Organization keys not found"@),
        AppError::EnvVariableNotFound(v) => (500, "Environment variable not found: "@ + v@),
        AppError::KeyRotationTooRecent => (400, "key has been rotated too recently"@),
        AppError::KinesisStreamPut => (500, "Failed to put message onto stream"@),
    }
}

fn concat_message(prefix: &str, detail: &String) -> (r: String)
    ensures
        r@ == prefix@ + detail@,
{
    let mut r = String::from_str(prefix);
    r.append(detail.as_str());
    r
}

impl AppError {
    /// The error's message, as it is logged.
    pub fn message(&self) -> (r: String)
        ensures
            r@ == app_error_message_spec(*self),
    {
        match self {
            AppError::Anyhow(_) => String::from_str("error"),
            AppError::BadMessageSize => String::from_str("bad message size"),
            AppError::DatabaseError(_) => String::from_str("database error"),
            AppError::LoadingKeysFailed(m) => concat_message("loading keys failed ", m),
            AppError::UntrustedKeyError(_) => String::from_str("parsing untrusted key failed"),
            AppError::HexParseError(_) => String::from_str("failed to parse hex"),
            AppError::Base64Decode(_) => String::from_str("failed to parse hex"),
            AppError::SignatureVerificationFailed => String::from_str("signature verification failed"),
            AppError::JournalistIdNotFound => String::from_str("journalist id not found"),
            AppError::JournalistDescriptionTooLong => String::from_str("journalist description too long"),
            AppError::CommonError(m) => concat_message("CoverDrop common error: ", m),
            AppError::SigningKeyNotFound => String::from_str("Form signing key not found"),
            AppError::NoOrganizationKeys => String::from_str("No organization keys"),
            AppError::EnvVariableNotFound(v) => concat_message("Environment variable not found: ", v),
            AppError::KeyRotationTooRecent => String::from_str("key has been uploaded too recently"),
            AppError::KinesisStreamPut => String::from_str("failed to put message on kinesis stream"),
        }
    }

    /// The HTTP status code and the message that answer the request.
    pub fn response(&self) -> (r: (u16, String))
        ensures
            (r.0, r.1@) == app_error_response_spec(*self),
    {
        match self {
            AppError::BadMessageSize => (400, String::from_str("bad message size")),
            AppError::DatabaseError(_) => (500, String::from_str("database error")),
            AppError::LoadingKeysFailed(_) => (500, String::from_str("loading keys from disk failed")),
            AppError::UntrustedKeyError(_) => (
                500,
                String::from_str("failed to convert untrusted keys to verified keys"),
            ),
            AppError::HexParseError(_) => (500, String::from_str("failed to parse hex")),
            AppError::SignatureVerificationFailed => (401, String::from_str("signature verification failed")),
            AppError::JournalistIdNotFound => (404, String::from_str("journalist id key not found")),
            AppError::JournalistDescriptionTooLong => (400, String::from_str("journalist description too long")),
            AppError::Base64Decode(_) => (400, String::from_str("Failed to decode base64")),
            AppError::CommonError(_) => (500, String::from_str("Internal server error")),
            AppError::Anyhow(_) => (500, String::from_str("Internal server error")),
            AppError::SigningKeyNotFound => (
                404,
                String::from_str(
                    "Signing key not found in API database, it is either expired or never existed",
                ),
            ),
            AppError::NoOrganizationKeys => (500, String::from_str("Organization keys not found")),
            AppError::EnvVariableNotFound(v) => (500, concat_message("Environment variable not found: ", v)),
            AppError::KeyRotationTooRecent => (400, String::from_str("key has been rotated too recently")),
            AppError::KinesisStreamPut => (500, String::from_str("Failed to put message onto stream")),
        }
    }
}

/// Errors that wrap another component's error never show its details to the
/// client, and every refusal is a client error (4xx) or a server error (5xx).
pub proof fn lemma_responses_hide_details(e: AppError)
    ensures
        400 <= app_error_response_spec(e).0 < 600,
        e matches AppError::Anyhow(_) ==> app_error_response_spec(e) == (500u16, "Internal server error"@),
        e matches AppError::CommonError(_) ==> app_error_response_spec(e) == (500u16, "Internal server error"@),
        e matches AppError::DatabaseError(_) ==> app_error_response_spec(e) == (500u16, "database error"@),
        e matches AppError::LoadingKeysFailed(_) ==> app_error_response_spec(e) == (
            500u16,
            "loading keys from disk failed"@,
        ),
{
}

/// Who is at fault for an error: the client's request, or the service.
pub open spec fn caused_by_request(e: AppError) -> bool {
    match e {
        AppError::BadMessageSize => true,
        AppError::JournalistDescriptionTooLong => true,
        AppError::Base64Decode(_) => true,
        AppError::KeyRotationTooRecent => true,
        AppError::SignatureVerificationFailed => true,
        AppError::SigningKeyNotFound => true,
        AppError::JournalistIdNotFound => true,
        _ => false,
    }
}

/// An error caused by the client's request answers with a client error
/// status (4xx); every other error answers with a server error status (5xx).
/// A refused signature answers 401, a key that is not known 404, and a
/// malformed or untimely request 400.
pub proof fn lemma_client_errors_are_4xx(e: AppError)
    ensures
        caused_by_request(e) ==> 400 <= app_error_response_spec(e).0 < 500,
        !caused_by_request(e) ==> 500 <= app_error_response_spec(e).0 < 600,
        e matches AppError::SignatureVerificationFailed ==> app_error_response_spec(e).0 == 401,
        (e matches AppError::SigningKeyNotFound) || (e matches AppError::JournalistIdNotFound)
            ==> app_error_response_spec(e).0 == 404,
        (e matches AppError::BadMessageSize) || (e matches AppError::JournalistDescriptionTooLong) || (
        e matches AppError::Base64Decode(_)) || (e matches AppError::KeyRotationTooRecent)
            ==> app_error_response_spec(e).0 == 400,
{
}

} // verus!
