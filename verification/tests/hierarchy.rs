use coverdrop::hierarchy::{
    default_journalist_if_served, key_hierarchy_from_rows, HierarchyError, HierarchyRow, KeyCheck,
    KeyColumn,
};

fn ok(id: i32) -> KeyColumn {
    KeyColumn { id: Some(id), json: Some(KeyCheck::Parsed { verified: true }) }
}

fn bad_signature(id: i32) -> KeyColumn {
    KeyColumn { id: Some(id), json: Some(KeyCheck::Parsed { verified: false }) }
}

fn malformed(id: i32) -> KeyColumn {
    KeyColumn { id: Some(id), json: Some(KeyCheck::Malformed) }
}

fn none() -> KeyColumn {
    KeyColumn { id: None, json: None }
}

fn org_row(org: i32) -> HierarchyRow {
    HierarchyRow {
        org_pk_id: org,
        org_pk: KeyCheck::Parsed { verified: true },
        covernode_provisioning_pk: none(),
        covernode_id: None,
        covernode_id_pk: none(),
        covernode_msg_pk: none(),
        journalist_provisioning_pk: none(),
        journalist_id: None,
        journalist_id_pk: none(),
        journalist_msg_pk: none(),
        backup_id_pk: none(),
        backup_msg_pk: none(),
        max_epoch: Some(1),
    }
}

fn covernode_row(org: i32, prov: KeyColumn, name: &str, id: KeyColumn, msg: KeyColumn, epoch: i32) -> HierarchyRow {
    HierarchyRow {
        covernode_provisioning_pk: prov,
        covernode_id: Some(name.to_string()),
        covernode_id_pk: id,
        covernode_msg_pk: msg,
        max_epoch: Some(epoch),
        ..org_row(org)
    }
}

fn journalist_row(org: i32, prov: KeyColumn, name: &str, id: KeyColumn, msg: KeyColumn) -> HierarchyRow {
    HierarchyRow {
        journalist_provisioning_pk: prov,
        journalist_id: Some(name.to_string()),
        journalist_id_pk: id,
        journalist_msg_pk: msg,
        ..org_row(org)
    }
}

#[test]
fn full_covernode_chain_is_served() {
    let rows = vec![
        covernode_row(1, ok(10), "covernode_001", ok(100), ok(1000), 5),
        covernode_row(1, ok(10), "covernode_001", ok(100), ok(1001), 7),
    ];
    let h = key_hierarchy_from_rows(&rows).unwrap();
    assert_eq!(h.max_epoch, 7);
    assert_eq!(h.organizations.len(), 1);
    let org = &h.organizations[0];
    assert_eq!(org.org_pk, 1);
    assert_eq!(org.covernode_provisioning.len(), 1);
    let prov = &org.covernode_provisioning[0];
    assert_eq!(prov.provisioning_pk, 10);
    assert_eq!(prov.identities.len(), 1);
    assert_eq!(prov.identities[0].identity, "covernode_001");
    assert_eq!(prov.identities[0].id_pk_families.len(), 1);
    assert_eq!(prov.identities[0].id_pk_families[0].id_pk, 100);
    assert_eq!(prov.identities[0].id_pk_families[0].msg_pks, vec![1000, 1001]);
    assert!(org.journalist_provisioning.is_empty());
    assert!(org.backup_id.is_empty());
}

#[test]
fn untrusted_organization_key_hides_its_whole_subtree() {
    let mut row = covernode_row(1, ok(10), "covernode_001", ok(100), ok(1000), 3);
    row.org_pk = KeyCheck::Parsed { verified: false };
    let h = key_hierarchy_from_rows(&vec![row]).unwrap();
    assert!(h.organizations.is_empty());
    assert_eq!(h.max_epoch, 3);
}

#[test]
fn key_with_bad_signature_hides_its_children() {
    let rows = vec![covernode_row(1, ok(10), "covernode_001", bad_signature(100), ok(1000), 1)];
    let h = key_hierarchy_from_rows(&rows).unwrap();
    let prov = &h.organizations[0].covernode_provisioning[0];
    assert!(prov.identities.is_empty());
}

#[test]
fn malformed_key_fails_the_assembly() {
    let rows = vec![covernode_row(1, ok(10), "covernode_001", malformed(100), none(), 1)];
    assert_eq!(key_hierarchy_from_rows(&rows).unwrap_err(), HierarchyError::MalformedKey);
    let mut row = org_row(1);
    row.org_pk = KeyCheck::Malformed;
    assert_eq!(key_hierarchy_from_rows(&vec![row]).unwrap_err(), HierarchyError::MalformedKey);
}

#[test]
fn malformed_copy_of_an_admitted_key_is_not_decoded_again() {
    let rows = vec![
        covernode_row(1, ok(10), "covernode_001", ok(100), none(), 1),
        covernode_row(1, malformed(10), "covernode_001", ok(100), none(), 1),
    ];
    let h = key_hierarchy_from_rows(&rows).unwrap();
    assert_eq!(h.organizations[0].covernode_provisioning.len(), 1);
}

#[test]
fn journalist_keys_are_grouped_by_identity() {
    let rows = vec![
        journalist_row(1, ok(20), "alice", ok(200), ok(2000)),
        journalist_row(1, ok(20), "bob", ok(201), none()),
        journalist_row(1, ok(20), "alice", ok(202), ok(2001)),
    ];
    let h = key_hierarchy_from_rows(&rows).unwrap();
    let prov = &h.organizations[0].journalist_provisioning[0];
    assert_eq!(prov.identities.len(), 2);
    assert_eq!(prov.identities[0].identity, "alice");
    let alice: Vec<i32> = prov.identities[0].id_pk_families.iter().map(|f| f.id_pk).collect();
    assert_eq!(alice, vec![200, 202]);
    assert_eq!(prov.identities[0].id_pk_families[0].msg_pks, vec![2000]);
    assert_eq!(prov.identities[0].id_pk_families[1].msg_pks, vec![2001]);
    assert_eq!(prov.identities[1].identity, "bob");
    assert_eq!(default_journalist_if_served(Some("bob".to_string()), &h), Some("bob".to_string()));
    assert_eq!(default_journalist_if_served(Some("carol".to_string()), &h), None);
    assert_eq!(default_journalist_if_served(None, &h), None);
}

#[test]
fn backup_keys_hang_from_their_organization() {
    let mut row = org_row(1);
    row.backup_id_pk = ok(30);
    row.backup_msg_pk = ok(300);
    let mut other = org_row(2);
    other.backup_id_pk = ok(31);
    let h = key_hierarchy_from_rows(&vec![row, other]).unwrap();
    assert_eq!(h.organizations.len(), 2);
    assert_eq!(h.organizations[0].backup_id.len(), 1);
    assert_eq!(h.organizations[0].backup_id[0].id_pk, 30);
    assert_eq!(h.organizations[0].backup_id[0].msg_pks, vec![300]);
    assert_eq!(h.organizations[1].backup_id[0].id_pk, 31);
    assert!(h.organizations[1].backup_id[0].msg_pks.is_empty());
}

#[test]
fn no_rows_give_an_empty_hierarchy() {
    let h = key_hierarchy_from_rows(&vec![]).unwrap();
    assert!(h.organizations.is_empty());
    assert_eq!(h.max_epoch, 0);
}
