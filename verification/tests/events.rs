//! The event decoder: creation events read from positional ledger log
//! records.

use revocation_registry::{
    Accumulator, Block, ContractEvent, ContractParam, EventField,
    RevocationRegistryDefinitionId, RevocationRegistryEntry, RevocationRegistryEvents,
    RevRegEntryCreated, VdrError, DID,
};

fn sample_entry() -> RevocationRegistryEntry {
    RevocationRegistryEntry::new(
        RevocationRegistryDefinitionId::from("rev_reg_def"),
        DID::from("did:ethr:0x9"),
        Accumulator::from("accum2"),
        Some(Accumulator::from("accum1")),
        None,
        Some(vec![5, 6]),
    )
}

fn sample_log() -> ContractEvent {
    let ContractParam::Bytes(payload) = sample_entry().to_contract_param().unwrap();
    ContractEvent {
        fields: vec![
            EventField::FixedBytes(vec![0xde, 0xad, 0xbe, 0xef]),
            EventField::Uint(1_700_000_000),
            EventField::Uint(42),
            EventField::Bytes(payload),
        ],
    }
}

#[test]
fn decode_created_event_ok() {
    let event = RevRegEntryCreated::from_event(&sample_log()).unwrap();
    assert_eq!(
        event.revocation_registry_definition_id,
        vec![0xde, 0xad, 0xbe, 0xef]
    );
    assert_eq!(event.timestamp, 1_700_000_000);
    assert_eq!(event.parent_block_number, Block(42));
    assert_eq!(event.rev_reg_entry, sample_entry());
    // The enum of contract events wraps exactly one creation event.
    let wrapped = RevocationRegistryEvents::RevocationRegistryEntryCreatedEvent(event);
    assert!(matches!(
        wrapped,
        RevocationRegistryEvents::RevocationRegistryEntryCreatedEvent(_)
    ));
}

// A log whose entry payload is not valid JSON for the entry schema fails
// with the event decoding error for position 3 and a nested serialization
// error.
#[test]
fn decode_bad_entry_payload_names_position_three() {
    let mut log = sample_log();
    log.fields[3] = EventField::Bytes(b"{\"not\":\"an entry\"}".to_vec());
    match RevRegEntryCreated::from_event(&log) {
        Err(VdrError::EventDecodeError { index, cause }) => {
            assert_eq!(index, 3);
            assert!(matches!(*cause, VdrError::SerializationError { .. }));
        }
        other => panic!("expected an event decoding error, got {:?}", other),
    }
}

#[test]
fn decode_missing_field_names_its_position() {
    let mut log = sample_log();
    log.fields.truncate(2);
    match RevRegEntryCreated::from_event(&log) {
        Err(VdrError::EventDecodeError { index, .. }) => assert_eq!(index, 2),
        other => panic!("expected an event decoding error, got {:?}", other),
    }
}

#[test]
fn decode_wrong_field_kind_names_its_position() {
    let mut log = sample_log();
    log.fields[0] = EventField::Uint(9);
    match RevRegEntryCreated::from_event(&log) {
        Err(VdrError::EventDecodeError { index, .. }) => assert_eq!(index, 0),
        other => panic!("expected an event decoding error, got {:?}", other),
    }
}

// A ledger word too wide for a timestamp is a decoding failure, reported,
// never aborted on.
#[test]
fn decode_oversized_uint_names_its_position() {
    let mut log = sample_log();
    log.fields[1] = EventField::Uint(u128::MAX);
    match RevRegEntryCreated::from_event(&log) {
        Err(VdrError::EventDecodeError { index, .. }) => assert_eq!(index, 1),
        other => panic!("expected an event decoding error, got {:?}", other),
    }
}

// The rendered text of a nested decoding error names the position and the
// underlying cause.
#[test]
fn event_error_message_names_field_and_cause() {
    let mut log = sample_log();
    log.fields[3] = EventField::Bytes(vec![0xff]);
    let err = RevRegEntryCreated::from_event(&log).unwrap_err();
    let message = err.message();
    assert!(message.contains("Unable to decode log field 3"));
    assert!(message.contains("UTF-8"));
}

#[test]
fn accessors_read_by_position_and_kind() {
    let log = sample_log();
    assert_eq!(
        log.get_fixed_bytes(0).unwrap(),
        vec![0xde, 0xad, 0xbe, 0xef]
    );
    assert_eq!(log.get_uint(1).unwrap(), 1_700_000_000);
    assert_eq!(log.get_uint(2).unwrap(), 42);
    assert!(log.get_bytes(3).is_ok());
    assert!(log.get_uint(0).is_err());
    assert!(log.get_bytes(7).is_err());
}
