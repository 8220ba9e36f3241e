use coverdrop::error::AppError;
use coverdrop::uploads::{
    check_provisioning_key_upload, check_signed_form, check_signed_key_upload, first_verifying_key,
    select_key_signer,
};

const HOUR: i64 = 3_600_000_000;

#[test]
fn signed_forms_need_a_known_signer_and_a_valid_signature() {
    assert!(check_signed_form(true, true).is_ok());
    assert!(matches!(check_signed_form(false, true), Err(AppError::SigningKeyNotFound)));
    assert!(matches!(check_signed_form(false, false), Err(AppError::SigningKeyNotFound)));
    assert!(matches!(check_signed_form(true, false), Err(AppError::SignatureVerificationFailed)));
}

#[test]
fn signed_key_uploads_check_both_signatures() {
    assert!(check_signed_key_upload(true, true, true).is_ok());
    assert!(matches!(check_signed_key_upload(false, true, true), Err(AppError::SigningKeyNotFound)));
    assert!(matches!(
        check_signed_key_upload(true, true, false),
        Err(AppError::SignatureVerificationFailed)
    ));
    assert!(matches!(
        check_signed_key_upload(true, false, true),
        Err(AppError::SignatureVerificationFailed)
    ));
}

#[test]
fn provisioning_key_uploads_respect_the_rotation_period() {
    let now = 10 * HOUR;
    assert!(check_provisioning_key_upload(true, None, now, HOUR, true, true).is_ok());
    assert!(check_provisioning_key_upload(true, Some(8 * HOUR), now, HOUR, true, true).is_ok());
    assert!(matches!(
        check_provisioning_key_upload(true, Some(9 * HOUR + 1), now, HOUR, false, false),
        Err(AppError::KeyRotationTooRecent)
    ));
    assert!(matches!(
        check_provisioning_key_upload(false, Some(9 * HOUR + 1), now, HOUR, true, true),
        Err(AppError::SigningKeyNotFound)
    ));
    assert!(matches!(
        check_provisioning_key_upload(true, Some(8 * HOUR), now, HOUR, true, false),
        Err(AppError::SignatureVerificationFailed)
    ));
}

#[test]
fn the_first_certifying_parent_is_chosen() {
    assert_eq!(first_verifying_key(&vec![false, true, true]), Some(1));
    assert_eq!(first_verifying_key(&vec![false, false]), None);
    assert_eq!(first_verifying_key(&vec![]), None);
    assert_eq!(select_key_signer(true, true, &vec![false, false, true]).ok(), Some(2));
    assert!(matches!(
        select_key_signer(true, true, &vec![false, false]),
        Err(AppError::SignatureVerificationFailed)
    ));
    assert!(matches!(
        select_key_signer(true, false, &vec![true]),
        Err(AppError::SignatureVerificationFailed)
    ));
    assert!(matches!(select_key_signer(false, true, &vec![true]), Err(AppError::SigningKeyNotFound)));
}
