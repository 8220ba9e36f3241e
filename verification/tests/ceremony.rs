use coverdrop::ceremony::{
    check_post_ceremony_bundles_exist, check_single_anchor_key, covernode_numbers, encryption_prompt,
    environment_message, is_confirmation, move_copy_prompt, passphrase_file_name, post_ceremony_bundles,
    required_materials_message, step_prompt, AssumeYes, CeremonyState, CeremonyStep, CeremonyType,
    OrgKeyPairCopy, StepOutput, UsbDevice,
};

fn output_for(step: CeremonyStep, ceremony_type: CeremonyType) -> StepOutput {
    if step.is_skipped(ceremony_type) {
        return StepOutput::Nothing;
    }
    match step {
        CeremonyStep::GenerateOrganizationKeyPair => StepOutput::OrgKeyPair,
        CeremonyStep::GenerateJournalistProvisioningKeyPair => StepOutput::File("journalist_provisioning.keypair.json".to_string()),
        CeremonyStep::GenerateCoverNodeProvisioningKeyPair => StepOutput::File("covernode_provisioning.keypair.json".to_string()),
        CeremonyStep::GenerateAdminKeyPair => StepOutput::File("admin.keypair.json".to_string()),
        CeremonyStep::GenerateBackupKeys => StepOutput::BackupKeyPairFiles("backup_id.keypair.json".to_string(), "backup_msg.keypair.json".to_string()),
        CeremonyStep::GenerateSystemStatusBundle => StepOutput::File("set_system_status_available.bundle.json".to_string()),
        CeremonyStep::GenerateAnchorOrganizationPublicKeyFile => StepOutput::File("anchor.pub.json".to_string()),
        CeremonyStep::GeneratePublicKeyFormsBundle => StepOutput::File("public_key_forms.bundle.json".to_string()),
        _ => StepOutput::Nothing,
    }
}

#[test]
fn initial_setup_steps_record_outputs_and_keep_earlier_ones() {
    let mut state = CeremonyState::new(
        CeremonyType::InitialSetup,
        AssumeYes::DefaultYes,
        "/tmp/ceremony".to_string(),
        Some(1),
        Some("some-password".to_string()),
        false,
    );
    for step in CeremonyStep::all_steps() {
        assert!(state.requirements_met(step));
        state.record(step, output_for(step, CeremonyType::InitialSetup));
        match step {
            CeremonyStep::GenerateJournalistProvisioningKeyPair => {
                assert!(state.journalist_provisioning_key_pair_file.is_some());
            }
            CeremonyStep::GenerateCoverNodeProvisioningKeyPair => {
                assert!(state.journalist_provisioning_key_pair_file.is_some());
                assert!(state.covernode_provisioning_key_pair_file.is_some());
            }
            CeremonyStep::GenerateAdminKeyPair => {
                assert!(state.journalist_provisioning_key_pair_file.is_some());
                assert!(state.covernode_provisioning_key_pair_file.is_some());
                assert!(state.admin_key_pair_file.is_some());
            }
            _ => {}
        }
    }
    assert!(state.org_key_pair);
    assert_eq!(state.backup_id_key_pair_file.as_deref(), Some("backup_id.keypair.json"));
    assert_eq!(state.backup_msg_key_pair_file.as_deref(), Some("backup_msg.keypair.json"));
    assert_eq!(state.set_system_status_available_bundle.as_deref(), Some("set_system_status_available.bundle.json"));
    assert_eq!(state.anchor_org_pk_file.as_deref(), Some("anchor.pub.json"));
    assert_eq!(state.public_key_forms_bundle.as_deref(), Some("public_key_forms.bundle.json"));
}

#[test]
fn org_key_rotation_skips_database_and_status() {
    assert!(CeremonyStep::GenerateCoverNodeDatabase.is_skipped(CeremonyType::OrgKeyRotation));
    assert!(CeremonyStep::GenerateSystemStatusBundle.is_skipped(CeremonyType::OrgKeyRotation));
    assert!(!CeremonyStep::GenerateCoverNodeDatabase.is_skipped(CeremonyType::InitialSetup));
    let mut state = CeremonyState::new(CeremonyType::OrgKeyRotation, AssumeYes::DefaultYes, ".".to_string(), None, None, true);
    for step in CeremonyStep::all_steps() {
        assert!(state.requirements_met(step));
        state.record(step, output_for(step, CeremonyType::OrgKeyRotation));
    }
    assert!(state.set_system_status_available_bundle.is_none());
    assert!(state.public_key_forms_bundle.is_some());
}

#[test]
fn steps_need_what_earlier_steps_make() {
    let state = CeremonyState::new(CeremonyType::InitialSetup, AssumeYes::AlwaysAsk, ".".to_string(), Some(3), Some("pw".to_string()), false);
    assert!(!state.requirements_met(CeremonyStep::GenerateJournalistProvisioningKeyPair));
    assert!(!state.requirements_met(CeremonyStep::GenerateCoverNodeDatabase));
    assert!(!state.requirements_met(CeremonyStep::GeneratePublicKeyFormsBundle));
    assert!(state.requirements_met(CeremonyStep::InitialStep));
}

#[test]
fn steps_run_in_declaration_order_with_titles() {
    let steps = CeremonyStep::all_steps();
    assert_eq!(steps.len(), 11);
    assert_eq!(steps[0], CeremonyStep::InitialStep);
    assert_eq!(steps[10], CeremonyStep::FinalStep);
    assert_eq!(CeremonyStep::GenerateCoverNodeDatabase.title(), "Generate CoverNode Database");
    assert_eq!(CeremonyStep::InitialStep.title(), "Initial Step");
}

#[test]
fn devices_and_their_requirement() {
    let devices = UsbDevice::all_devices();
    assert_eq!(devices.len(), 10);
    assert_eq!(devices[0].description(), "Org key pair copy 1");
    assert_eq!(UsbDevice::OrgKeyPairPassword(OrgKeyPairCopy::Secondary).description(), "Org key pair password 2");
    assert!(!UsbDevice::CoverNodeDatabase.required_for_ceremony_type(&CeremonyType::OrgKeyRotation));
    assert!(UsbDevice::CoverNodeDatabase.required_for_ceremony_type(&CeremonyType::InitialSetup));
    assert!(UsbDevice::BackupKeys.required_for_ceremony_type(&CeremonyType::OrgKeyRotation));
    assert_eq!(AssumeYes::from_boolean(true), AssumeYes::DefaultYes);
    assert_eq!(AssumeYes::from_boolean(false), AssumeYes::AlwaysAsk);
}

#[test]
fn required_materials_message_lists_required_devices() {
    let m = required_materials_message(CeremonyType::OrgKeyRotation);
    assert!(m.starts_with("You will need the following removable devices to store the material.\nMake sure all devices are appropriately labelled as\n- Org key pair copy 1\n"));
    assert!(!m.contains("CoverNode database"));
    assert!(m.ends_with("\n- Backup keys\nDo you have all removable devices to hand?"));
    let m = required_materials_message(CeremonyType::InitialSetup);
    assert!(m.contains("\n- Identity API\n- CoverNode database\n- Admin keys\n"));
}

#[test]
fn prompts_and_messages() {
    assert!(environment_message(CeremonyType::OrgKeyRotation).starts_with("You're about to start the organization key rotation ceremony.\n"));
    let state = CeremonyState::new(CeremonyType::InitialSetup, AssumeYes::AlwaysAsk, ".".to_string(), Some(1), Some("pw".to_string()), false);
    assert_eq!(
        step_prompt(CeremonyStep::GenerateAdminKeyPair, &state),
        "The admin key pair has been created.\nMake sure the following step is completed:\n- Move the admin key pair to removable device 'Admin keys'.\nHave you completed this step?"
    );
    assert_eq!(passphrase_file_name(OrgKeyPairCopy::Primary), "org_key_pair_passphrase_1.txt");
    assert_eq!(
        move_copy_prompt(OrgKeyPairCopy::Secondary, "org.json.age", "pass_2.txt"),
        "Move org key org.json.age to removable device 'Org key pair copy 2' and passphrase pass_2.txt to removable device 'Org key pair password 2'"
    );
    assert_eq!(
        encryption_prompt(OrgKeyPairCopy::Primary, "org.json", "a b c"),
        "Use age to encrypt the organization key pair 1 \nusing the following command:\n\n        ./age -p org.json > org.json.age\n  enter this passphrase when prompted: a b c"
    );
    assert!(is_confirmation("yes"));
    assert!(!is_confirmation("ye"));
    assert!(!is_confirmation("yess"));
    assert_eq!(covernode_numbers(3), vec![1, 2, 3]);
}

#[test]
fn post_ceremony_bundle_checks() {
    assert_eq!(post_ceremony_bundles(CeremonyType::InitialSetup), vec!["public_key_forms.bundle.json", "set_system_status_available.bundle.json"]);
    assert_eq!(post_ceremony_bundles(CeremonyType::OrgKeyRotation), vec!["public_key_forms.bundle.json"]);
    assert!(check_post_ceremony_bundles_exist(&vec![("a".to_string(), true)]).is_ok());
    let err = check_post_ceremony_bundles_exist(&vec![("a".to_string(), false), ("b".to_string(), true), ("c".to_string(), false)]).unwrap_err();
    assert_eq!(err, "The following files are required to run the post-ceremony actions, but were not found:\na\nc\n");
    assert!(check_single_anchor_key(1).is_ok());
    assert_eq!(check_single_anchor_key(2).unwrap_err(), "Expected exactly one trusted organization public key, found 2");
}
