//! What the API answers to a signed upload, from what the key hierarchy
//! lookup, the signature checks and the database reported for it.
//!
//! Every signed form names its signing key.  The handler looks that key up
//! among the trusted keys, checks the form's signature with it, and, for a
//! form that carries a new public key, checks the new key's own signature.
//! The functions here decide the answer from those findings, in the order in
//! which the handlers check them.
use vstd::prelude::*;
use crate::api_rules::{check_if_key_rotation_too_recent, rotated_too_recently};
use crate::error::AppError;

verus! {

/// A signed form is accepted when its signing key is trusted and its
/// signature verifies; the missing key is reported first.
pub fn check_signed_form(signing_key_found: bool, form_verified: bool) -> (r: Result<(), AppError>)
    ensures
        !signing_key_found ==> r matches Err(AppError::SigningKeyNotFound),
        signing_key_found && !form_verified ==> r matches Err(AppError::SignatureVerificationFailed),
        r is Ok <==> signing_key_found && form_verified,
{
    if !signing_key_found {
        Err(AppError::SigningKeyNotFound)
    } else if !form_verified {
        Err(AppError::SignatureVerificationFailed)
    } else {
        Ok(())
    }
}

/// A form carrying a key signed by the form's own signer (an admin key or a
/// backup key) is accepted when the signer is trusted, the form verifies and
/// the key's certificate verifies.
pub fn check_signed_key_upload(signing_key_found: bool, form_verified: bool, key_verified: bool) -> (r: Result<
    (),
    AppError,
>)
    ensures
        !signing_key_found ==> r matches Err(AppError::SigningKeyNotFound),
        signing_key_found && !(form_verified && key_verified) ==> r matches Err(
            AppError::SignatureVerificationFailed,
        ),
        r is Ok <==> signing_key_found && form_verified && key_verified,
{
    match check_signed_form(signing_key_found, form_verified) {
        Err(e) => Err(e),
        Ok(()) => {
            if key_verified {
                Ok(())
            } else {
                Err(AppError::SignatureVerificationFailed)
            }
        },
    }
}

/// A new provisioning key, signed by an organization key.  After the signer
/// is found, an upload that comes too soon after the last provisioning key of
/// its kind is refused before any signature is checked.
pub fn check_provisioning_key_upload(
    signing_key_found: bool,
    latest_pk_added_at: Option<i64>,
    now: i64,
    min_rotate_after: i64,
    form_verified: bool,
    key_verified: bool,
) -> (r: Result<(), AppError>)
    ensures
        !signing_key_found ==> r matches Err(AppError::SigningKeyNotFound),
        signing_key_found && rotated_too_recently(latest_pk_added_at, now, min_rotate_after) ==> r matches Err(
            AppError::KeyRotationTooRecent,
        ),
        signing_key_found && !rotated_too_recently(latest_pk_added_at, now, min_rotate_after) && !(
        form_verified && key_verified) ==> r matches Err(AppError::SignatureVerificationFailed),
        r is Ok <==> signing_key_found && !rotated_too_recently(latest_pk_added_at, now, min_rotate_after)
            && form_verified && key_verified,
{
    if !signing_key_found {
        return Err(AppError::SigningKeyNotFound);
    }
    match check_if_key_rotation_too_recent(latest_pk_added_at, now, min_rotate_after) {
        Err(e) => Err(e),
        Ok(()) => check_signed_key_upload(true, form_verified, key_verified),
    }
}

/// `i` is the position of the first `true` in `s`.
pub open spec fn is_first_true(s: Seq<bool>, i: int) -> bool {
    &&& 0 <= i < s.len()
    &&& s[i]
    &&& forall|j: int| 0 <= j < i ==> !s[j]
}

/// No element of `s` is `true`.
pub open spec fn none_true(s: Seq<bool>) -> bool {
    forall|j: int| 0 <= j < s.len() ==> !s[j]
}

/// The first of the candidate parent keys, in the hierarchy's order, under
/// which the uploaded key's certificate verifies.
pub fn first_verifying_key(verifies: &Vec<bool>) -> (r: Option<usize>)
    ensures
        r matches Some(i) ==> is_first_true(verifies@, i as int),
        r is None ==> none_true(verifies@),
{
    let mut i: usize = 0;
    while i < verifies.len()
        invariant
            i <= verifies.len(),
            forall|j: int| 0 <= j < i ==> !verifies@[j],
        decreases verifies.len() - i,
    {
        if verifies[i] {
            return Some(i);
        }
        i = i + 1;
    }
    None
}

/// A new identity or messaging key.  Its form is signed by one trusted key,
/// and the key itself may be certified by any of the candidate parent keys
/// (all provisioning keys for an identity key, the owner's identity keys for
/// a messaging key): the first candidate that certifies it is its parent.
/// Gives the parent's position among the candidates.
pub fn select_key_signer(signing_key_found: bool, form_verified: bool, verifies: &Vec<bool>) -> (r: Result<
    usize,
    AppError,
>)
    ensures
        !signing_key_found ==> r matches Err(AppError::SigningKeyNotFound),
        signing_key_found && !form_verified ==> r matches Err(AppError::SignatureVerificationFailed),
        signing_key_found && form_verified ==> (r matches Ok(p) ==> is_first_true(verifies@, p as int)),
        signing_key_found && form_verified ==> (r is Err <==> none_true(verifies@)),
        signing_key_found && form_verified && none_true(verifies@) ==> r matches Err(
            AppError::SignatureVerificationFailed,
        ),
{
    match check_signed_form(signing_key_found, form_verified) {
        Err(e) => Err(e),
        Ok(()) => match first_verifying_key(verifies) {
            Some(i) => Ok(i),
            None => Err(AppError::SignatureVerificationFailed),
        },
    }
}

} // verus!
