//! The validation protocol: local validation, ledger-pair validation and
//! status-list validation.

use revocation_registry::{
    Accumulator, RevocationRegistryDefinitionId, RevocationRegistryEntry,
    RevocationRegistryEntryData, RevocationStatusList, VdrError, DID,
};

/// Builds entry data with the given revoked indices and accumulators.
fn revocation_registry_entry_data(
    revoked_indices: Option<Vec<u32>>,
    accum: Option<&str>,
    prev_accum: Option<&str>,
) -> RevocationRegistryEntryData {
    RevocationRegistryEntryData {
        current_accumulator: match accum {
            Some(acc) => Accumulator::from(acc),
            None => Accumulator::from("currentAccum"),
        },
        prev_accumulator: prev_accum.map(Accumulator::from),
        issued: None,
        revoked: revoked_indices,
    }
}

/// Builds an entry with the given accumulators.
fn revocation_registry_entry(
    issuer_id: &DID,
    rev_reg_def_id: &RevocationRegistryDefinitionId,
    revoked_indices: Option<Vec<u32>>,
    accum: Option<&str>,
    prev_accum: Option<&str>,
) -> RevocationRegistryEntry {
    RevocationRegistryEntry {
        issuer_id: issuer_id.clone(),
        rev_reg_def_id: rev_reg_def_id.clone(),
        rev_reg_entry_data: revocation_registry_entry_data(revoked_indices, accum, prev_accum),
    }
}

fn fake_status_list_with_issuer(issuer: &str) -> RevocationStatusList {
    RevocationStatusList {
        current_accumulator: "123".to_string(),
        revocation_list: vec![0u32; 32],
        rev_reg_def_id: RevocationRegistryDefinitionId::from("rev_reg_def"),
        issuer_id: DID::from(issuer),
        timestamp: u64::MAX,
    }
}

fn fake_status_list(accum: &str) -> RevocationStatusList {
    RevocationStatusList {
        current_accumulator: accum.to_string(),
        revocation_list: vec![0u32; 32],
        rev_reg_def_id: RevocationRegistryDefinitionId::build(&DID::default(), "cred_def_id", "tag"),
        issuer_id: DID::default(),
        timestamp: u64::MAX,
    }
}

#[test]
fn accumulator_validate_empty_fails() {
    let res = Accumulator::from("").validate();
    assert!(res.is_err());
    assert!(res.unwrap_err().message().contains("Incorrect Accumulator"));
}

#[test]
fn accumulator_validate_ok() {
    let acc = Accumulator::from("valid_acc");
    assert!(acc.validate().is_ok());
}

#[test]
fn rev_reg_entry_validate_local_ok() {
    let issuer = DID::default();
    let rev_reg_def_id = RevocationRegistryDefinitionId::build(&issuer, "cred_def_id", "tag");
    let entry = revocation_registry_entry(&issuer, &rev_reg_def_id, None, None, Some("prev123"));
    assert!(entry.validate().is_ok());
}

#[test]
fn validate_status_list_match_ok() {
    let issuer = DID::default();
    let rev_reg_def_id = RevocationRegistryDefinitionId::build(&issuer, "cred_def_id", "tag");
    let entry = revocation_registry_entry(&issuer, &rev_reg_def_id, None, None, Some("123"));
    let status_list = fake_status_list("123");

    let res = entry.validate_with_status_list(&Some(status_list));
    assert!(res.is_ok());
}

#[test]
fn validate_status_list_mismatch_fails() {
    let issuer = DID::default();
    let rev_reg_def_id = RevocationRegistryDefinitionId::build(&issuer, "cred_def_id", "tag");
    let entry = revocation_registry_entry(&issuer, &rev_reg_def_id, None, None, Some("localPrev"));
    let status_list = fake_status_list("ledgerPrev");

    let res = entry.validate_with_status_list(&Some(status_list));
    assert!(res.is_err());
    assert!(res.unwrap_err().message().contains("prev_accum mismatch"));
}

// A locally declared predecessor with no status list supplied: the
// reconciliation steps are skipped entirely, so only local validation runs
// and the entry passes.
#[test]
fn validate_status_list_none_ledger_fails() {
    let issuer = DID::default();
    let rev_reg_def_id = RevocationRegistryDefinitionId::build(&issuer, "cred_def_id", "tag");
    let entry = revocation_registry_entry(&issuer, &rev_reg_def_id, None, None, Some("localPrev"));

    let res = entry.validate_with_status_list(&None);
    assert!(res.is_ok());
}

#[test]
fn validate_status_list_none_local_fails() {
    let issuer = DID::default();
    let rev_reg_def_id = RevocationRegistryDefinitionId::build(&issuer, "cred_def_id", "tag");
    let entry = revocation_registry_entry(&issuer, &rev_reg_def_id, None, None, None);
    let status_list = fake_status_list("ledgerPrev");

    let res = entry.validate_with_status_list(&Some(status_list));
    assert!(res.is_err());
    assert!(res
        .unwrap_err()
        .message()
        .contains("prev_accum not provided locally, but exists on the ledger"));
}

#[test]
fn validate_status_list_none_both_ok() {
    let issuer = DID::default();
    let rev_reg_def_id = RevocationRegistryDefinitionId::build(&issuer, "cred_def_id", "tag");
    let entry = revocation_registry_entry(&issuer, &rev_reg_def_id, None, None, None);
    let status_list = fake_status_list("");

    let res = entry.validate_with_status_list(&Some(status_list));
    assert!(res.is_ok());
}

#[test]
fn validate_status_list_prev_none_ledger_empty_ok() {
    let issuer = DID::default();
    let rev_reg_def_id = RevocationRegistryDefinitionId::build(&issuer, "cred_def_id", "tag");
    let entry = revocation_registry_entry(&issuer, &rev_reg_def_id, None, Some("prev123"), None);

    let res = entry.validate_with_status_list(&None);
    assert!(res.is_ok());
}

#[test]
fn validate_with_status_list_correct_issuer_ok() {
    let issuer = "did:ethr:0x123";
    let rev_reg_def_id = RevocationRegistryDefinitionId::from("rev_reg_def");
    let entry = revocation_registry_entry(
        &DID::from(issuer),
        &rev_reg_def_id,
        None,
        Some("123"),
        Some("123"),
    );

    let status_list = Some(fake_status_list_with_issuer(issuer));

    let res = entry.validate_with_status_list(&status_list);
    assert!(res.is_ok(), "Validation should pass when issuer matches");
}

#[test]
fn validate_with_status_list_incorrect_issuer_fails() {
    let issuer = "did:ethr:0x123";
    let wrong_issuer = "did:ethr:0x456";
    let rev_reg_def_id = RevocationRegistryDefinitionId::from("rev_reg_def");
    let entry = revocation_registry_entry(
        &DID::from(issuer),
        &rev_reg_def_id,
        None,
        Some("123"),
        Some("123"),
    );

    let status_list = Some(fake_status_list_with_issuer(wrong_issuer));

    let res = entry.validate_with_status_list(&status_list);
    assert!(
        res.is_err(),
        "Validation should fail when issuer does not match"
    );
    assert!(res.unwrap_err().message().contains("issuer mismatch"));
}

#[test]
fn validate_with_status_list_none_status_list_ok() {
    let issuer = "did:ethr:0x123";
    let rev_reg_def_id = RevocationRegistryDefinitionId::from("rev_reg_def");
    let entry =
        revocation_registry_entry(&DID::from(issuer), &rev_reg_def_id, None, Some("123"), None);

    let res = entry.validate_with_status_list(&None);
    assert!(
        res.is_ok(),
        "Validation should pass when status list is None"
    );
}

// The ledger-pair truth table, all four cases.
#[test]
fn ledger_pair_truth_table() {
    let issuer = DID::from("did:ethr:0xabc");
    let id = RevocationRegistryDefinitionId::from("rev_reg_def");

    // Both present and equal: pass.
    let both_equal = revocation_registry_entry(&issuer, &id, None, None, Some("same"));
    assert!(both_equal
        .validate_with_ledger(Some(Accumulator::from("same")))
        .is_ok());

    // Both present and unequal: a mismatch carrying both values.
    let unequal = revocation_registry_entry(&issuer, &id, None, None, Some("local"));
    match unequal.validate_with_ledger(Some(Accumulator::from("ledger"))) {
        Err(VdrError::AccumulatorMismatch { ledger, local }) => {
            assert_eq!(ledger, "ledger");
            assert_eq!(local, "local");
        }
        other => panic!("expected an accumulator mismatch, got {:?}", other),
    }

    // Local absent, ledger present: the local predecessor is missing.
    let local_absent = revocation_registry_entry(&issuer, &id, None, None, None);
    match local_absent.validate_with_ledger(Some(Accumulator::from("ledger"))) {
        Err(VdrError::MissingLocalPrevious) => {}
        other => panic!("expected a missing local previous, got {:?}", other),
    }

    // Local present, ledger absent: the local predecessor is unexpected.
    let ledger_absent = revocation_registry_entry(&issuer, &id, None, None, Some("local"));
    match ledger_absent.validate_with_ledger(None) {
        Err(VdrError::UnexpectedLocalPrevious) => {}
        other => panic!("expected an unexpected local previous, got {:?}", other),
    }

    // Both absent: the legitimate first entry of a new registry.
    let both_absent = revocation_registry_entry(&issuer, &id, None, None, None);
    assert!(both_absent.validate_with_ledger(None).is_ok());
}

// A mismatch report names both the ledger value and the local value.
#[test]
fn mismatch_message_names_both_values() {
    let issuer = DID::default();
    let id = RevocationRegistryDefinitionId::from("rev_reg_def");
    let entry = revocation_registry_entry(&issuer, &id, None, None, Some("localPrev"));
    let res = entry.validate_with_status_list(&Some(fake_status_list("ledgerPrev")));
    let message = res.unwrap_err().message();
    assert_eq!(
        message,
        "prev_accum mismatch: expected ledgerPrev, found localPrev"
    );
    assert!(message.contains("ledgerPrev"));
    assert!(message.contains("localPrev"));
}

// Status-list validation without a status list decides exactly as local
// validation, on passing and on failing entries alike.
#[test]
fn absent_status_list_equals_local_validation() {
    let issuer = DID::from("did:ethr:0x1");
    let id = RevocationRegistryDefinitionId::from("rev_reg_def");
    let passing = revocation_registry_entry(&issuer, &id, None, Some("acc"), Some("prev"));
    assert_eq!(
        passing.validate_with_status_list(&None).is_ok(),
        passing.validate().is_ok()
    );
    let failing = revocation_registry_entry(&issuer, &id, None, Some(""), None);
    assert_eq!(
        failing.validate_with_status_list(&None).unwrap_err(),
        failing.validate().unwrap_err()
    );
}

// An empty previous accumulator fails local validation after the current
// one passed.
#[test]
fn empty_previous_accumulator_fails_locally() {
    let issuer = DID::default();
    let id = RevocationRegistryDefinitionId::from("rev_reg_def");
    let entry = revocation_registry_entry(&issuer, &id, None, Some("acc"), Some(""));
    match entry.validate() {
        Err(VdrError::InvalidAccumulator) => {}
        other => panic!("expected an invalid accumulator, got {:?}", other),
    }
}

// An issuer mismatch carries both identifiers, and never arises without a
// status list, whatever the issuers are.
#[test]
fn issuer_mismatch_carries_both_and_needs_a_status_list() {
    let issuer = DID::from("did:ethr:0x123");
    let id = RevocationRegistryDefinitionId::from("rev_reg_def");
    let entry = revocation_registry_entry(&issuer, &id, None, Some("123"), Some("123"));
    match entry.validate_with_status_list(&Some(fake_status_list_with_issuer("did:ethr:0x456"))) {
        Err(VdrError::IssuerMismatch {
            entry_issuer,
            status_list_issuer,
        }) => {
            assert_eq!(entry_issuer, "did:ethr:0x123");
            assert_eq!(status_list_issuer, "did:ethr:0x456");
        }
        other => panic!("expected an issuer mismatch, got {:?}", other),
    }
    assert!(!matches!(
        entry.validate_with_status_list(&None),
        Err(VdrError::IssuerMismatch { .. })
    ));
}

// The ledger's "empty string means absent" convention, as a named
// conversion: empty maps to absence, anything else to a present value.
#[test]
fn optional_accumulator_mapping() {
    assert!(revocation_registry::accumulator::parse_optional_accumulator("").is_none());
    assert_eq!(
        revocation_registry::accumulator::parse_optional_accumulator("acc").unwrap(),
        Accumulator::from("acc")
    );
}

// The registry definition id builder produces the documented layout.
#[test]
fn registry_definition_id_layout() {
    let id = RevocationRegistryDefinitionId::build(&DID::from("did:ethr:0x9"), "cred", "tag1");
    assert_eq!(id.as_str(), "did:ethr:0x9/anoncreds/v0/REV_REG_DEF/cred/tag1");
}
