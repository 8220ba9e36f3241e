//! The API's rules for accepting uploads and shaping responses.
//!
//! Times are counted in microseconds since the Unix epoch, durations in
//! microseconds, except where a name says seconds.
use vstd::prelude::*;
use crate::error::AppError;
use crate::text::{push_signed_decimal, signed_decimal};

verus! {

/// The time between two instants, in either order.
pub open spec fn distance(a: int, b: int) -> int {
    if a >= b {
        a - b
    } else {
        b - a
    }
}

/// A key of this kind was added less than `min_rotate_after` from `now`.
pub open spec fn rotated_too_recently(latest_pk_added_at: Option<i64>, now: i64, min_rotate_after: i64) -> bool {
    match latest_pk_added_at {
        Some(added_at) => distance(now as int, added_at as int) < min_rotate_after,
        None => false,
    }
}

fn rotated_too_recently_exec(latest_pk_added_at: Option<i64>, now: i64, min_rotate_after: i64) -> (r: bool)
    ensures
        r == rotated_too_recently(latest_pk_added_at, now, min_rotate_after),
{
    match latest_pk_added_at {
        Some(added_at) => {
            let d: i128 = now as i128 - added_at as i128;
            let d = if d < 0 { -d } else { d };
            d < min_rotate_after as i128
        },
        None => false,
    }
}

/// A key upload is refused when the last key of its kind was added less
/// than `min_rotate_after` before (or after) `now`.
pub fn check_if_key_rotation_too_recent(
    latest_pk_added_at: Option<i64>,
    now: i64,
    min_rotate_after: i64,
) -> (r: Result<(), AppError>)
    ensures
        rotated_too_recently(latest_pk_added_at, now, min_rotate_after) ==> r matches Err(
            AppError::KeyRotationTooRecent,
        ),
        !rotated_too_recently(latest_pk_added_at, now, min_rotate_after) ==> r is Ok,
{
    if rotated_too_recently_exec(latest_pk_added_at, now, min_rotate_after) {
        Err(AppError::KeyRotationTooRecent)
    } else {
        Ok(())
    }
}

/// Whether to warn that a key of this kind was rotated too recently; such
/// uploads are accepted nonetheless.
pub fn warn_if_key_rotation_too_recent(
    latest_pk_added_at: Option<i64>,
    now: i64,
    min_rotate_after: i64,
) -> (r: bool)
    ensures
        r == rotated_too_recently(latest_pk_added_at, now, min_rotate_after),
{
    rotated_too_recently_exec(latest_pk_added_at, now, min_rotate_after)
}

/// A journalist profile's description may be at most `max_len` long, unless
/// the profile is a desk.
pub open spec fn description_allowed(is_desk: bool, description_len: int, max_len: int) -> bool {
    is_desk || description_len <= max_len
}

/// Refuses a non-desk journalist profile whose description is too long.
pub fn check_journalist_description(is_desk: bool, description_len: usize, max_len: usize) -> (r: Result<(), AppError>)
    ensures
        description_allowed(is_desk, description_len as int, max_len as int) ==> r is Ok,
        !description_allowed(is_desk, description_len as int, max_len as int) ==> r matches Err(
            AppError::JournalistDescriptionTooLong,
        ),
{
    if !is_desk && description_len > max_len {
        Err(AppError::JournalistDescriptionTooLong)
    } else {
        Ok(())
    }
}

/// The polling period of a background task, in seconds: the configured one,
/// or `default_seconds` when none is configured.  A configured period must
/// be more than one second, and small enough to be held as a duration.
pub fn polling_seconds_to_duration(maybe_seconds: Option<i64>, default_seconds: i64) -> (r: i64)
    requires
        maybe_seconds matches Some(s) ==> 1 < s <= i64::MAX / 1000,
    ensures
        r == match maybe_seconds {
            Some(s) => s,
            None => default_seconds,
        },
{
    match maybe_seconds {
        Some(seconds) => seconds,
        None => default_seconds,
    }
}

/// How long clients may cache dead drops, in seconds.
pub const DEAD_DROP_TTL_IN_SECONDS: i64 = 300;

/// How long clients may cache the public keys, in seconds.
pub const PUBLIC_KEYS_TTL_IN_SECONDS: i64 = 60;

/// How long clients may cache the system status, in seconds.
pub const STATUS_TTL_IN_SECONDS: i64 = 5;

/// How long clients may cache the health check, in seconds.
pub const HEALTHCHECK_TTL_IN_SECONDS: i64 = 1;

/// How long clients may cache key rotation forms, in seconds.
pub const ROTATION_FORM_TTL_IN_SECONDS: i64 = 5;

/// The value of the `cache-control` header for a time to live in seconds.
pub open spec fn cache_control_value_spec(ttl_seconds: i64) -> Seq<char> {
    "max-age="@ + signed_decimal(ttl_seconds as int)
}

/// The value of the `cache-control` header: `max-age=` and the seconds.
pub fn cache_control_value(ttl_seconds: i64) -> (r: String)
    ensures
        r@ == cache_control_value_spec(ttl_seconds),
{
    let mut r = String::from_str("max-age=");
    push_signed_decimal(&mut r, ttl_seconds);
    r
}


/// Where the trusted organization keys are read from.
#[derive(Clone, Copy, PartialEq, Eq, Structural, Debug)]
pub enum AnchorKeySource {
    /// The parameter store, under the configured prefix.
    ParameterStore,
    /// The configured keys directory.
    Disk,
}

/// The keys come from exactly one of the two places that can be configured.
pub fn anchor_key_source(has_keys_path: bool, has_parameter_prefix: bool) -> (r: AnchorKeySource)
    requires
        has_keys_path != has_parameter_prefix,
    ensures
        r == (if has_keys_path { AnchorKeySource::Disk } else { AnchorKeySource::ParameterStore }),
{
    if has_keys_path {
        AnchorKeySource::Disk
    } else {
        AnchorKeySource::ParameterStore
    }
}

/// Where a journalist's backup is uploaded: `{journalist}/{created_at}.backup`.
pub fn backup_upload_path(journalist_id: &str, created_at: &str) -> (r: String)
    ensures
        r@ == journalist_id@ + "/"@ + created_at@ + ".backup"@,
{
    let mut r = String::from_str(journalist_id);
    r.append("/");
    r.append(created_at);
    r.append(".backup");
    r
}

/// How long an upload address stays valid, in seconds.
pub const BACKUP_UPLOAD_URL_EXPIRY_SECONDS: u64 = 3600;

/// The sender of the mail that reports a status change.
pub fn status_email_sender(stage: &str, email_identity_domain: &str) -> (r: String)
    ensures
        r@ == "CoverDrop "@ + stage@ + " <alerts@"@ + email_identity_domain@ + ">"@,
{
    let mut r = String::from_str("CoverDrop ");
    r.append(stage);
    r.append(" <alerts@");
    r.append(email_identity_domain);
    r.append(">");
    r
}

/// The body of the mail that reports a status change, given the status as text.
pub fn status_email_body(status_text: &str) -> (r: String)
    ensures
        r@ == "The system status has just been updated to:\n"@ + status_text@,
{
    let mut r = String::from_str("The system status has just been updated to:\n");
    r.append(status_text);
    r
}

} // verus!
