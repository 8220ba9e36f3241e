use coverdrop::backups::{
    check_backup_signer, in_progress_bundle_file_name, require_keys_found, response_bundle_file_name,
    restored_vault_file_name, share_file_names, RestoreError,
};
use coverdrop::journalist::{
    default_journalist_id, delete_journalist_form_file_name, latest_key_index, sort_name_from_display_name,
    SortNameError,
};

#[test]
fn sort_name_reverses_two_word_names() {
    assert_eq!(sort_name_from_display_name(None, "Joe Bloggs").unwrap(), "bloggs joe");
    assert_eq!(sort_name_from_display_name(None, "Madonna").unwrap(), "madonna");
    assert_eq!(sort_name_from_display_name(Some("given".to_string()), "Guido van Rossum").unwrap(), "given");
}

#[test]
fn sort_name_refuses_what_it_cannot_guess() {
    assert_eq!(sort_name_from_display_name(None, "Guido van Rossum").unwrap_err(), SortNameError::TooManyWords);
    assert_eq!(sort_name_from_display_name(None, "이세돌").unwrap_err(), SortNameError::NonAscii);
    assert!(SortNameError::TooManyWords.message().starts_with("More than two words"));
}

#[test]
fn default_identity_from_display_name() {
    assert_eq!(default_journalist_id(None, "Joe Bloggs"), "joe_bloggs");
    assert_eq!(default_journalist_id(Some("jb".to_string()), "Joe Bloggs"), "jb");
    assert_eq!(default_journalist_id(None, "Élodie Durand"), "élodie_durand");
    assert_eq!(delete_journalist_form_file_name("joe_bloggs"), "delete_joe_bloggs.form.json");
}

#[test]
fn latest_key_is_the_last_to_expire() {
    assert_eq!(latest_key_index(&vec![]), None);
    assert_eq!(latest_key_index(&vec![5, 9, 3]), Some(1));
    assert_eq!(latest_key_index(&vec![9, 2, 9]), Some(2));
}

#[test]
fn restore_file_names() {
    assert_eq!(response_bundle_file_name("alice", "T1"), "restore-alice-T1.response-bundle");
    assert_eq!(in_progress_bundle_file_name("alice", "T1"), "restore-alice-T1.recovery-in-progress");
    assert_eq!(restored_vault_file_name("alice", "T1"), "alice-restored-T1.vault");
    let names = share_file_names("alice", "T1", &vec!["bob".to_string(), "carol".to_string()]);
    assert_eq!(
        names,
        vec!["restore-alice-T1-share-1-bob.recovery-share.txt", "restore-alice-T1-share-2-carol.recovery-share.txt"]
    );
}

#[test]
fn restore_checks() {
    assert_eq!(require_keys_found(0, RestoreError::NoBackupIdKeyPairs), Err(RestoreError::NoBackupIdKeyPairs));
    assert!(require_keys_found(2, RestoreError::NoBackupIdKeyPairs).is_ok());
    assert_eq!(
        RestoreError::NoOrganizationKeys.message("/keys"),
        "No organization public keys found in '/keys'. Cannot verify backup."
    );
    assert!(check_backup_signer(&"alice".to_string(), &"alice".to_string()).is_ok());
    assert_eq!(check_backup_signer(&"mallory".to_string(), &"alice".to_string()), Err(RestoreError::IdentityMismatch));
}
