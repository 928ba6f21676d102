//! The codec: record ⇄ JSON text ⇄ binary contract parameter.

use revocation_registry::{
    Accumulator, ContractParam, RevocationRegistryDefinitionId, RevocationRegistryEntry, VdrError,
    DID,
};

fn sample_entry() -> RevocationRegistryEntry {
    RevocationRegistryEntry::new(
        RevocationRegistryDefinitionId::from("did:ethr:0x9/anoncreds/v0/REV_REG_DEF/cred/tag1"),
        DID::from("did:ethr:0x9"),
        Accumulator::from("accum2"),
        Some(Accumulator::from("accum1")),
        Some(vec![1, 2, 3]),
        Some(vec![7, 4294967295]),
    )
}

// An entry with every field shape exercised: absent lists, an absent
// predecessor, and string content that needs escaping.
fn awkward_entry() -> RevocationRegistryEntry {
    RevocationRegistryEntry::new(
        RevocationRegistryDefinitionId::from("id with \"quotes\" and \\slashes\\"),
        DID::from("did:ethr:0x9\nnext line\tand tab"),
        Accumulator::from("unicode é ✓ 😀 and control \u{01}\u{1f}"),
        None,
        None,
        Some(vec![0]),
    )
}

#[test]
fn entry_to_string_exact() {
    let text = sample_entry().to_string().unwrap();
    assert_eq!(
        text,
        "{\"revRegDefId\":\"did:ethr:0x9/anoncreds/v0/REV_REG_DEF/cred/tag1\",\
         \"issuerId\":\"did:ethr:0x9\",\
         \"rev_reg_entry_data\":{\"currentAccumulator\":\"accum2\",\
         \"prevAccumulator\":\"accum1\",\"issued\":[1,2,3],\"revoked\":[7,4294967295]}}"
    );
}

#[test]
fn entry_to_string_escapes_and_null_fields() {
    let text = awkward_entry().to_string().unwrap();
    assert_eq!(
        text,
        "{\"revRegDefId\":\"id with \\\"quotes\\\" and \\\\slashes\\\\\",\
         \"issuerId\":\"did:ethr:0x9\\nnext line\\tand tab\",\
         \"rev_reg_entry_data\":{\"currentAccumulator\":\"unicode é ✓ 😀 and control \\u0001\\u001f\",\
         \"prevAccumulator\":null,\"issued\":null,\"revoked\":[0]}}"
    );
}

// The codec is total: even a record that validation would reject, such as
// one holding empty strings, still round-trips unchanged.
fn empty_strings_entry() -> RevocationRegistryEntry {
    RevocationRegistryEntry::new(
        RevocationRegistryDefinitionId::from(""),
        DID::from(""),
        Accumulator::from(""),
        Some(Accumulator::from("")),
        None,
        None,
    )
}

#[test]
fn json_round_trip() {
    for entry in [sample_entry(), awkward_entry(), empty_strings_entry()] {
        let text = entry.to_string().unwrap();
        let back = RevocationRegistryEntry::from_string(&text).unwrap();
        assert_eq!(back, entry);
    }
}

#[test]
fn binary_round_trip() {
    for entry in [sample_entry(), awkward_entry()] {
        let ContractParam::Bytes(bytes) = entry.to_contract_param().unwrap();
        let back = RevocationRegistryEntry::from_contract_bytes(&bytes).unwrap();
        assert_eq!(back, entry);
    }
}

#[test]
fn binary_form_is_the_text_bytes() {
    let entry = sample_entry();
    let text = entry.to_string().unwrap();
    let ContractParam::Bytes(bytes) = entry.to_contract_param().unwrap();
    assert_eq!(bytes, text.as_bytes());
}

// The wire text is real JSON: an independent JSON parser reads back every
// field, including the escaped ones.
#[test]
fn wire_text_is_valid_json() {
    let entry = awkward_entry();
    let text = entry.to_string().unwrap();
    let value: serde_json::Value = serde_json::from_str(&text).unwrap();
    assert_eq!(
        value["revRegDefId"].as_str().unwrap(),
        "id with \"quotes\" and \\slashes\\"
    );
    assert_eq!(
        value["issuerId"].as_str().unwrap(),
        "did:ethr:0x9\nnext line\tand tab"
    );
    let data = &value["rev_reg_entry_data"];
    assert_eq!(
        data["currentAccumulator"].as_str().unwrap(),
        "unicode é ✓ 😀 and control \u{01}\u{1f}"
    );
    assert!(data["prevAccumulator"].is_null());
    assert!(data["issued"].is_null());
    let revoked: Vec<u64> = data["revoked"]
        .as_array()
        .unwrap()
        .iter()
        .map(|v| v.as_u64().unwrap())
        .collect();
    assert_eq!(revoked, vec![0]);
}

#[test]
fn from_string_accepts_named_escapes() {
    let text = "{\"revRegDefId\":\"a\\\"b\\\\c\\/d\\be\\ff\\ng\\rh\\ti\\u0002j\",\
                \"issuerId\":\"x\",\
                \"rev_reg_entry_data\":{\"currentAccumulator\":\"acc\",\
                \"prevAccumulator\":null,\"issued\":null,\"revoked\":null}}";
    let entry = RevocationRegistryEntry::from_string(text).unwrap();
    assert_eq!(
        entry.rev_reg_def_id.as_str(),
        "a\"b\\c/d\u{08}e\u{0c}f\ng\rh\ti\u{02}j"
    );
}

// JSON's insignificant whitespace is accepted anywhere its grammar allows.
#[test]
fn from_string_accepts_whitespace() {
    let text = " \n{ \"revRegDefId\" :\t\"id\" ,\r\n \"issuerId\" : \"did:ethr:0x9\" ,\
                \"rev_reg_entry_data\" : { \"currentAccumulator\" : \"acc\" ,\
                \"prevAccumulator\" : null , \"issued\" : [ 1 , 2 ] , \"revoked\" : [ ] } } \n ";
    let entry = RevocationRegistryEntry::from_string(text).unwrap();
    assert_eq!(entry.rev_reg_def_id.as_str(), "id");
    assert_eq!(entry.rev_reg_entry_data.issued, Some(vec![1, 2]));
    assert_eq!(entry.rev_reg_entry_data.revoked, Some(vec![]));
}

// The members of each object may come in any order.
#[test]
fn from_string_accepts_any_member_order() {
    let text = "{\"rev_reg_entry_data\":{\"revoked\":null,\"issued\":[3],\
                \"prevAccumulator\":\"p\",\"currentAccumulator\":\"c\"},\
                \"issuerId\":\"i\",\"revRegDefId\":\"d\"}";
    let entry = RevocationRegistryEntry::from_string(text).unwrap();
    assert_eq!(entry.rev_reg_def_id.as_str(), "d");
    assert_eq!(entry.issuer_id.as_str(), "i");
    assert_eq!(
        entry.rev_reg_entry_data.current_accumulator,
        Accumulator::from("c")
    );
    assert_eq!(
        entry.rev_reg_entry_data.prev_accumulator,
        Some(Accumulator::from("p"))
    );
    assert_eq!(entry.rev_reg_entry_data.issued, Some(vec![3]));
    assert_eq!(entry.rev_reg_entry_data.revoked, None);
}

// An absent optional member means absence.
#[test]
fn from_string_accepts_absent_optional_members() {
    let text = "{\"revRegDefId\":\"d\",\"issuerId\":\"i\",\
                \"rev_reg_entry_data\":{\"currentAccumulator\":\"c\"}}";
    let entry = RevocationRegistryEntry::from_string(text).unwrap();
    assert_eq!(entry.rev_reg_entry_data.prev_accumulator, None);
    assert_eq!(entry.rev_reg_entry_data.issued, None);
    assert_eq!(entry.rev_reg_entry_data.revoked, None);
}

// The full escape repertoire: four-digit escapes and surrogate pairs.
#[test]
fn from_string_accepts_unicode_escapes() {
    let text = "{\"revRegDefId\":\"\\u0041\\u00e9\\u20ac\\uD83D\\uDE00\",\"issuerId\":\"b\",\
                \"rev_reg_entry_data\":{\"currentAccumulator\":\"c\",\
                \"prevAccumulator\":null,\"issued\":null,\"revoked\":null}}";
    let entry = RevocationRegistryEntry::from_string(text).unwrap();
    assert_eq!(entry.rev_reg_def_id.as_str(), "Aé€😀");
}

// A text rendered by an independent JSON writer — which reorders the
// members alphabetically and indents freely — still reads back as the same
// record.
#[test]
fn from_string_accepts_independent_json_renderings() {
    let entry = sample_entry();
    let text = entry.to_string().unwrap();
    let value: serde_json::Value = serde_json::from_str(&text).unwrap();
    let pretty = serde_json::to_string_pretty(&value).unwrap();
    assert_ne!(pretty, text);
    let back = RevocationRegistryEntry::from_string(&pretty).unwrap();
    assert_eq!(back, entry);
}

#[test]
fn from_string_rejects_malformed_text() {
    for text in [
        "",
        "{}",
        "not json at all",
        "{\"revRegDefId\":\"a\",\"issuerId\":\"b\"}",
        // unterminated string
        "{\"revRegDefId\":\"a",
        // trailing garbage after the record
        "{\"revRegDefId\":\"a\",\"issuerId\":\"b\",\"rev_reg_entry_data\":{\"currentAccumulator\":\"c\",\"prevAccumulator\":null,\"issued\":null,\"revoked\":null}}x",
        // an index beyond the unsigned 32-bit range
        "{\"revRegDefId\":\"a\",\"issuerId\":\"b\",\"rev_reg_entry_data\":{\"currentAccumulator\":\"c\",\"prevAccumulator\":null,\"issued\":[4294967296],\"revoked\":null}}",
        // a bare control character inside a string
        "{\"revRegDefId\":\"a\u{01}\",\"issuerId\":\"b\",\"rev_reg_entry_data\":{\"currentAccumulator\":\"c\",\"prevAccumulator\":null,\"issued\":null,\"revoked\":null}}",
        // a leading zero is not a JSON number form
        "{\"revRegDefId\":\"a\",\"issuerId\":\"b\",\"rev_reg_entry_data\":{\"currentAccumulator\":\"c\",\"prevAccumulator\":null,\"issued\":[01],\"revoked\":null}}",
        // a duplicated member
        "{\"revRegDefId\":\"a\",\"revRegDefId\":\"a\",\"issuerId\":\"b\",\"rev_reg_entry_data\":{\"currentAccumulator\":\"c\"}}",
        // a member outside the record's schema
        "{\"revRegDefId\":\"a\",\"issuerId\":\"b\",\"extra\":1,\"rev_reg_entry_data\":{\"currentAccumulator\":\"c\"}}",
        // a missing mandatory member in the entry data
        "{\"revRegDefId\":\"a\",\"issuerId\":\"b\",\"rev_reg_entry_data\":{\"prevAccumulator\":null}}",
        // a lone surrogate escape names no character
        "{\"revRegDefId\":\"\\uD83D\",\"issuerId\":\"b\",\"rev_reg_entry_data\":{\"currentAccumulator\":\"c\"}}",
    ] {
        match RevocationRegistryEntry::from_string(text) {
            Err(VdrError::SerializationError { .. }) => {}
            other => panic!("expected a serialization error for {:?}, got {:?}", text, other),
        }
    }
}

#[test]
fn from_contract_bytes_rejects_invalid_utf8() {
    match RevocationRegistryEntry::from_contract_bytes(&[0xff, 0xfe, 0x7b]) {
        Err(VdrError::SerializationError { .. }) => {}
        other => panic!("expected a serialization error, got {:?}", other),
    }
}

#[test]
fn index_lists_round_trip_edge_values() {
    let entry = RevocationRegistryEntry::new(
        RevocationRegistryDefinitionId::from("id"),
        DID::from("issuer"),
        Accumulator::from("acc"),
        None,
        Some(vec![]),
        Some(vec![0, 10, 4294967295]),
    );
    let text = entry.to_string().unwrap();
    assert!(text.contains("\"issued\":[]"));
    assert!(text.contains("\"revoked\":[0,10,4294967295]"));
    let back = RevocationRegistryEntry::from_string(&text).unwrap();
    assert_eq!(back, entry);
}

#[test]
fn accumulator_bytes_are_the_token_bytes() {
    let acc = Accumulator::from("token é");
    assert_eq!(acc.as_bytes(), "token é".as_bytes());
    let ContractParam::Bytes(bytes) = acc.to_contract_param();
    assert_eq!(bytes, "token é".as_bytes());
}
