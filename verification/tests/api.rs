use coverdrop::api_rules::{
    anchor_key_source, backup_upload_path, cache_control_value, check_if_key_rotation_too_recent,
    check_journalist_description, polling_seconds_to_duration, status_email_body, status_email_sender,
    warn_if_key_rotation_too_recent, AnchorKeySource, DEAD_DROP_TTL_IN_SECONDS,
};
use coverdrop::error::{AppError, SetupError};

#[test]
fn error_responses() {
    assert_eq!(AppError::BadMessageSize.response(), (400, "bad message size".to_string()));
    assert_eq!(AppError::SignatureVerificationFailed.response(), (401, "signature verification failed".to_string()));
    assert_eq!(AppError::JournalistIdNotFound.response(), (404, "journalist id key not found".to_string()));
    assert_eq!(AppError::Anyhow("db down".to_string()).response(), (500, "Internal server error".to_string()));
    assert_eq!(
        AppError::EnvVariableNotFound("STAGE".to_string()).response(),
        (500, "Environment variable not found: STAGE".to_string())
    );
    assert_eq!(AppError::KeyRotationTooRecent.response(), (400, "key has been rotated too recently".to_string()));
    assert_eq!(AppError::Base64Decode("x".to_string()).response(), (400, "Failed to decode base64".to_string()));
}

#[test]
fn error_messages() {
    assert_eq!(AppError::LoadingKeysFailed("no dir".to_string()).message(), "loading keys failed no dir");
    assert_eq!(AppError::CommonError("boom".to_string()).message(), "CoverDrop common error: boom");
    assert_eq!(AppError::KeyRotationTooRecent.message(), "key has been uploaded too recently");
    assert_eq!(SetupError::ParsingDatabasePathFailed.message(), "failed to parse the database path into a string");
}

#[test]
fn key_rotation_too_recent() {
    let hour = 3_600_000_000i64;
    assert!(check_if_key_rotation_too_recent(None, 10 * hour, hour).is_ok());
    assert!(matches!(
        check_if_key_rotation_too_recent(Some(10 * hour - 1), 10 * hour, hour),
        Err(AppError::KeyRotationTooRecent)
    ));
    assert!(check_if_key_rotation_too_recent(Some(9 * hour), 10 * hour, hour).is_ok());
    // a key dated in the future counts by its distance too
    assert!(check_if_key_rotation_too_recent(Some(10 * hour + 5), 10 * hour, hour).is_err());
    assert!(warn_if_key_rotation_too_recent(Some(0), 1, 2));
    assert!(!warn_if_key_rotation_too_recent(Some(0), 2, 2));
}

#[test]
fn description_length_rule() {
    assert!(check_journalist_description(false, 140, 140).is_ok());
    assert!(matches!(check_journalist_description(false, 141, 140), Err(AppError::JournalistDescriptionTooLong)));
    assert!(check_journalist_description(true, 5000, 140).is_ok());
}

#[test]
fn polling_and_headers() {
    assert_eq!(polling_seconds_to_duration(None, 1800), 1800);
    assert_eq!(polling_seconds_to_duration(Some(2), 60), 2);
    assert_eq!(cache_control_value(DEAD_DROP_TTL_IN_SECONDS), "max-age=300");
    assert_eq!(cache_control_value(1), "max-age=1");
    assert_eq!(cache_control_value(-5), "max-age=-5");
    assert_eq!(anchor_key_source(true, false), AnchorKeySource::Disk);
    assert_eq!(anchor_key_source(false, true), AnchorKeySource::ParameterStore);
    assert_eq!(backup_upload_path("alice", "2025-11-20T16:00:24+00:00"), "alice/2025-11-20T16:00:24+00:00.backup");
    assert_eq!(status_email_sender("PROD", "example.com"), "CoverDrop PROD <alerts@example.com>");
    assert_eq!(status_email_body("{}"), "The system status has just been updated to:\n{}");
}
