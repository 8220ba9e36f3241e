//! Restoring a journalist's vault from a backup: the names of the files each
//! step writes and the checks that stop a restore.
use vstd::prelude::*;
use crate::text::{decimal, push_decimal};

verus! {

/// Why a restore cannot go on.
#[derive(Clone, Copy, PartialEq, Eq, Structural, Debug)]
pub enum RestoreError {
    /// No organization public key was found in the keys directory.
    NoOrganizationKeys,
    /// No backup identity key pair was found in the keys directory.
    NoBackupIdKeyPairs,
    /// No backup messaging key pair was found in the keys directory.
    NoBackupMsgKeyPairs,
    /// The backup was signed by a key of another journalist than expected.
    IdentityMismatch,
}

pub open spec fn restore_error_message_spec(e: RestoreError, keys_dir: Seq<char>) -> Seq<char> {
    match e {
        RestoreError::NoOrganizationKeys => "No organization public keys found in '"@ + keys_dir
            + "'. Cannot verify backup."@,
        RestoreError::NoBackupIdKeyPairs => "No backup identity key pairs found in '"@ + keys_dir
            + "'. Cannot decrypt backup."@,
        RestoreError::NoBackupMsgKeyPairs => "No backup messaging key pairs found in '"@ + keys_dir
            + "'. Cannot decrypt backup shares."@,
        RestoreError::IdentityMismatch => "Journalist identity from signing key does not match expected identity"@,
    }
}

impl RestoreError {
    /// The message reporting the error, naming the keys directory where it matters.
    pub fn message(&self, keys_dir: &str) -> (r: String)
        ensures
            r@ == restore_error_message_spec(*self, keys_dir@),
    {
        match self {
            RestoreError::NoOrganizationKeys => {
                let mut r = String::from_str("No organization public keys found in '");
                r.append(keys_dir);
                r.append("'. Cannot verify backup.");
                r
            },
            RestoreError::NoBackupIdKeyPairs => {
                let mut r = String::from_str("No backup identity key pairs found in '");
                r.append(keys_dir);
                r.append("'. Cannot decrypt backup.");
                r
            },
            RestoreError::NoBackupMsgKeyPairs => {
                let mut r = String::from_str("No backup messaging key pairs found in '");
                r.append(keys_dir);
                r.append("'. Cannot decrypt backup shares.");
                r
            },
            RestoreError::IdentityMismatch => String::from_str(
                "Journalist identity from signing key does not match expected identity",
            ),
        }
    }
}

/// Refuses to go on when no keys of a needed kind were found.
pub fn require_keys_found(count: usize, missing: RestoreError) -> (r: Result<(), RestoreError>)
    ensures
        count == 0 ==> r == Err::<(), RestoreError>(missing),
        count > 0 ==> r is Ok,
{
    if count == 0 {
        Err(missing)
    } else {
        Ok(())
    }
}

/// The backup must have been signed by the journalist whose vault is restored.
pub fn check_backup_signer(identity_from_key: &String, expected_identity: &String) -> (r: Result<(), RestoreError>)
    ensures
        identity_from_key@ == expected_identity@ ==> r is Ok,
        identity_from_key@ != expected_identity@ ==> r == Err::<(), RestoreError>(
            RestoreError::IdentityMismatch,
        ),
{
    if *identity_from_key == *expected_identity {
        Ok(())
    } else {
        Err(RestoreError::IdentityMismatch)
    }
}

/// `restore-{journalist}-{timestamp}`, the stem of the restore files.
pub open spec fn restore_stem(journalist_id: Seq<char>, timestamp: Seq<char>) -> Seq<char> {
    "restore-"@ + journalist_id + "-"@ + timestamp
}

fn restore_stem_exec(journalist_id: &str, timestamp: &str) -> (r: String)
    ensures
        r@ == restore_stem(journalist_id@, timestamp@),
{
    let mut r = String::from_str("restore-");
    r.append(journalist_id);
    r.append("-");
    r.append(timestamp);
    r
}

/// The name of the bundle that the online step hands to the air-gapped machine.
pub fn response_bundle_file_name(journalist_id: &str, timestamp: &str) -> (r: String)
    ensures
        r@ == restore_stem(journalist_id@, timestamp@) + ".response-bundle"@,
{
    let mut r = restore_stem_exec(journalist_id, timestamp);
    r.append(".response-bundle");
    r
}

/// The name of the bundle that holds a restore in progress.
pub fn in_progress_bundle_file_name(journalist_id: &str, timestamp: &str) -> (r: String)
    ensures
        r@ == restore_stem(journalist_id@, timestamp@) + ".recovery-in-progress"@,
{
    let mut r = restore_stem_exec(journalist_id, timestamp);
    r.append(".recovery-in-progress");
    r
}

/// The name of the file holding the `number`-th share, for `recipient`.
pub open spec fn share_file_name_spec(
    journalist_id: Seq<char>,
    timestamp: Seq<char>,
    number: nat,
    recipient: Seq<char>,
) -> Seq<char> {
    restore_stem(journalist_id, timestamp) + "-share-"@ + decimal(number) + "-"@ + recipient
        + ".recovery-share.txt"@
}

/// The names of the files holding the shares, one per recipient in order,
/// numbered from one.
pub fn share_file_names(journalist_id: &str, timestamp: &str, recipients: &Vec<String>) -> (r: Vec<String>)
    requires
        recipients.len() < u64::MAX,
    ensures
        r.len() == recipients.len(),
        forall|i: int|
            0 <= i < r.len() ==> #[trigger] r@[i]@ == share_file_name_spec(
                journalist_id@,
                timestamp@,
                (i + 1) as nat,
                recipients@[i]@,
            ),
{
    let mut r: Vec<String> = Vec::new();
    let mut i: usize = 0;
    while i < recipients.len()
        invariant
            i <= recipients.len() < u64::MAX,
            r.len() == i,
            forall|k: int|
                0 <= k < i ==> #[trigger] r@[k]@ == share_file_name_spec(
                    journalist_id@,
                    timestamp@,
                    (k + 1) as nat,
                    recipients@[k]@,
                ),
        decreases recipients.len() - i,
    {
        let mut name = restore_stem_exec(journalist_id, timestamp);
        name.append("-share-");
        push_decimal(&mut name, (i as u64) + 1);
        name.append("-");
        name.append(recipients[i].as_str());
        name.append(".recovery-share.txt");
        r.push(name);
        i = i + 1;
    }
    r
}

/// The name of the restored vault file.
pub fn restored_vault_file_name(journalist_id: &str, timestamp: &str) -> (r: String)
    ensures
        r@ == journalist_id@ + "-restored-"@ + timestamp@ + ".vault"@,
{
    let mut r = String::from_str(journalist_id);
    r.append("-restored-");
    r.append(timestamp);
    r.append(".vault");
    r
}

} // verus!
