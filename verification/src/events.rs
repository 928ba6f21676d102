//! The event decoder: extracting a "registry entry created" domain event
//! from a positionally-encoded ledger log record.

use vstd::prelude::*;
use vstd::slice::slice_to_vec;
use vstd::string::StringExecFns;

use crate::entry::{EntryView, RevocationRegistryEntry};
use crate::error::{ErrorSpec, VdrError};
use crate::wire::parse_entry_bytes;

verus! {

/// One positional field of a ledger log record, already carrying its
/// ABI-decoded plain value.
#[derive(Debug, Clone, PartialEq)]
pub enum EventField {
    /// A fixed-size byte field.
    FixedBytes(Vec<u8>),
    /// An unsigned integer field, as wide as the ledger's word.
    Uint(u128),
    /// A dynamic byte field.
    Bytes(Vec<u8>),
}

/// Mathematical value of one log field.
#[verifier::ext_equal]
pub enum EventFieldView {
    FixedBytes(Seq<u8>),
    Uint(u128),
    Bytes(Seq<u8>),
}

impl View for EventField {
    type V = EventFieldView;

    open spec fn view(&self) -> EventFieldView {
        match self {
            EventField::FixedBytes(b) => EventFieldView::FixedBytes(b@),
            EventField::Uint(u) => EventFieldView::Uint(*u),
            EventField::Bytes(b) => EventFieldView::Bytes(b@),
        }
    }
}

/// A ledger log record: an ordered list of typed positional fields, with
/// fallible accessors by position and kind.
#[derive(Debug, Clone, PartialEq)]
pub struct ContractEvent {
    pub fields: Vec<EventField>,
}

impl View for ContractEvent {
    type V = Seq<EventFieldView>;

    open spec fn view(&self) -> Seq<EventFieldView> {
        self.fields@.map_values(|f: EventField| f@)
    }
}

/// The fixed-bytes field at a position, when the record has one there.
pub open spec fn fixed_bytes_at(ev: Seq<EventFieldView>, i: int) -> Option<Seq<u8>> {
    if 0 <= i < ev.len() {
        match ev[i] {
            EventFieldView::FixedBytes(b) => Some(b),
            _ => None,
        }
    } else {
        None
    }
}

/// The unsigned-integer field at a position, when the record has one there
/// and its value fits the result.
pub open spec fn uint_at(ev: Seq<EventFieldView>, i: int) -> Option<u64> {
    if 0 <= i < ev.len() {
        match ev[i] {
            EventFieldView::Uint(u) => if u <= u64::MAX as u128 {
                Some(u as u64)
            } else {
                None
            },
            _ => None,
        }
    } else {
        None
    }
}

/// The dynamic-bytes field at a position, when the record has one there.
pub open spec fn bytes_at(ev: Seq<EventFieldView>, i: int) -> Option<Seq<u8>> {
    if 0 <= i < ev.len() {
        match ev[i] {
            EventFieldView::Bytes(b) => Some(b),
            _ => None,
        }
    } else {
        None
    }
}

/// The error an accessor raises for a missing field, a field of another
/// kind, or a value out of range.
fn field_error(diagnostic: &str) -> (r: VdrError)
    ensures
        r@ == ErrorSpec::SerializationError,
{
    VdrError::SerializationError { message: String::from_str(diagnostic) }
}

impl ContractEvent {
    /// The fixed-bytes field at `index`.
    pub fn get_fixed_bytes(&self, index: usize) -> (r: Result<Vec<u8>, VdrError>)
        ensures
            match r {
                Ok(b) => fixed_bytes_at(self@, index as int) == Some(b@),
                Err(e) => fixed_bytes_at(self@, index as int) is None && e@
                    == ErrorSpec::SerializationError,
            },
    {
        if index < self.fields.len() {
            match &self.fields[index] {
                EventField::FixedBytes(b) => Ok(slice_to_vec(b.as_slice())),
                _ => Err(field_error("the log field is not a fixed-bytes field")),
            }
        } else {
            Err(field_error("the log record has no field at this position"))
        }
    }

    /// The unsigned-integer field at `index`, which must fit a timestamp or
    /// block number.
    pub fn get_uint(&self, index: usize) -> (r: Result<u64, VdrError>)
        ensures
            match r {
                Ok(u) => uint_at(self@, index as int) == Some(u),
                Err(e) => uint_at(self@, index as int) is None && e@
                    == ErrorSpec::SerializationError,
            },
    {
        if index < self.fields.len() {
            match &self.fields[index] {
                EventField::Uint(u) => {
                    let u = *u;
                    if u <= u64::MAX as u128 {
                        Ok(u as u64)
                    } else {
                        Err(field_error("the log field's value does not fit 64 bits"))
                    }
                },
                _ => Err(field_error("the log field is not an unsigned-integer field")),
            }
        } else {
            Err(field_error("the log record has no field at this position"))
        }
    }

    /// The dynamic-bytes field at `index`.
    pub fn get_bytes(&self, index: usize) -> (r: Result<Vec<u8>, VdrError>)
        ensures
            match r {
                Ok(b) => bytes_at(self@, index as int) == Some(b@),
                Err(e) => bytes_at(self@, index as int) is None && e@
                    == ErrorSpec::SerializationError,
            },
    {
        if index < self.fields.len() {
            match &self.fields[index] {
                EventField::Bytes(b) => Ok(slice_to_vec(b.as_slice())),
                _ => Err(field_error("the log field is not a dynamic-bytes field")),
            }
        } else {
            Err(field_error("the log record has no field at this position"))
        }
    }
}

/// A ledger block number.
#[derive(Debug, Clone, Copy, PartialEq, Eq, Structural)]
pub struct Block(pub u64);

/// A confirmed, already-committed registry update, as the ledger announced
/// it: produced only by decoding a ledger log.
#[derive(Debug, Clone, PartialEq)]
pub struct RevRegEntryCreated {
    pub revocation_registry_definition_id: Vec<u8>,
    pub timestamp: u64,
    pub parent_block_number: Block,
    pub rev_reg_entry: RevocationRegistryEntry,
}

/// Mathematical value of a creation event.
#[verifier::ext_equal]
pub struct CreatedEventView {
    pub revocation_registry_definition_id: Seq<u8>,
    pub timestamp: u64,
    pub parent_block_number: u64,
    pub rev_reg_entry: EntryView,
}

impl View for RevRegEntryCreated {
    type V = CreatedEventView;

    open spec fn view(&self) -> CreatedEventView {
        CreatedEventView {
            revocation_registry_definition_id: self.revocation_registry_definition_id@,
            timestamp: self.timestamp,
            parent_block_number: self.parent_block_number.0,
            rev_reg_entry: self.rev_reg_entry@,
        }
    }
}

/// The events the revocation registry contract emits.
#[derive(Debug, Clone, PartialEq)]
pub enum RevocationRegistryEvents {
    RevocationRegistryEntryCreatedEvent(RevRegEntryCreated),
}

/// The position of the registry definition id in a creation event.
pub const REGISTRY_ID_POSITION: usize = 0;

/// The position of the timestamp in a creation event.
pub const TIMESTAMP_POSITION: usize = 1;

/// The position of the parent block number in a creation event.
pub const PARENT_BLOCK_POSITION: usize = 2;

/// The position of the nested entry payload in a creation event.
pub const ENTRY_POSITION: usize = 3;

/// What decoding a creation event from a log record yields: the event read
/// off the fixed positions, or the error naming the first position that
/// could not be decoded and the underlying cause.
pub open spec fn decode_created_event(ev: Seq<EventFieldView>) -> Result<
    CreatedEventView,
    ErrorSpec,
> {
    if fixed_bytes_at(ev, REGISTRY_ID_POSITION as int) is None {
        Err(
            ErrorSpec::EventDecodeError {
                index: REGISTRY_ID_POSITION as nat,
                cause: Box::new(ErrorSpec::SerializationError),
            },
        )
    } else if uint_at(ev, TIMESTAMP_POSITION as int) is None {
        Err(
            ErrorSpec::EventDecodeError {
                index: TIMESTAMP_POSITION as nat,
                cause: Box::new(ErrorSpec::SerializationError),
            },
        )
    } else if uint_at(ev, PARENT_BLOCK_POSITION as int) is None {
        Err(
            ErrorSpec::EventDecodeError {
                index: PARENT_BLOCK_POSITION as nat,
                cause: Box::new(ErrorSpec::SerializationError),
            },
        )
    } else if bytes_at(ev, ENTRY_POSITION as int) is None {
        Err(
            ErrorSpec::EventDecodeError {
                index: ENTRY_POSITION as nat,
                cause: Box::new(ErrorSpec::SerializationError),
            },
        )
    } else {
        match parse_entry_bytes(bytes_at(ev, ENTRY_POSITION as int).unwrap()) {
            Some(e) => Ok(
                CreatedEventView {
                    revocation_registry_definition_id: fixed_bytes_at(
                        ev,
                        REGISTRY_ID_POSITION as int,
                    ).unwrap(),
                    timestamp: uint_at(ev, TIMESTAMP_POSITION as int).unwrap(),
                    parent_block_number: uint_at(ev, PARENT_BLOCK_POSITION as int).unwrap(),
                    rev_reg_entry: e,
                },
            ),
            None => Err(
                ErrorSpec::EventDecodeError {
                    index: ENTRY_POSITION as nat,
                    cause: Box::new(ErrorSpec::SerializationError),
                },
            ),
        }
    }
}

/// Wraps an accessor's or the payload codec's failure into the event
/// decoding error for the position it struck.
fn position_error(index: usize, cause: VdrError) -> (r: VdrError)
    ensures
        r@ == (ErrorSpec::EventDecodeError { index: index as nat, cause: Box::new(cause@) }),
{
    VdrError::EventDecodeError { index, cause: Box::new(cause) }
}

impl RevRegEntryCreated {
    /// Decodes a creation event from the fixed positions of a ledger log
    /// record, exactly as [`decode_created_event`] reads them. Any
    /// positional failure is reported as the event decoding error for that
    /// position; a failure at the parent block number indicates
    /// ledger/client protocol skew, but is still returned, never aborted
    /// on. Decoding never partially mutates caller state.
    pub fn from_event(log: &ContractEvent) -> (r: Result<RevRegEntryCreated, VdrError>)
        ensures
            match r {
                Ok(ev) => decode_created_event(log@) matches Ok(v) && v == ev@,
                Err(e) => decode_created_event(log@) matches Err(c) && c == e@,
            },
    {
        let revocation_registry_definition_id = match log.get_fixed_bytes(REGISTRY_ID_POSITION) {
            Ok(b) => b,
            Err(e) => return Err(position_error(REGISTRY_ID_POSITION, e)),
        };
        let timestamp = match log.get_uint(TIMESTAMP_POSITION) {
            Ok(u) => u,
            Err(e) => return Err(position_error(TIMESTAMP_POSITION, e)),
        };
        let parent_block_number = match log.get_uint(PARENT_BLOCK_POSITION) {
            Ok(u) => u,
            Err(e) => return Err(position_error(PARENT_BLOCK_POSITION, e)),
        };
        let entry_bytes = match log.get_bytes(ENTRY_POSITION) {
            Ok(b) => b,
            Err(e) => return Err(position_error(ENTRY_POSITION, e)),
        };
        let rev_reg_entry = match RevocationRegistryEntry::from_contract_bytes(
            entry_bytes.as_slice(),
        ) {
            Ok(e) => e,
            Err(e) => return Err(position_error(ENTRY_POSITION, e)),
        };
        Ok(
            RevRegEntryCreated {
                revocation_registry_definition_id,
                timestamp,
                parent_block_number: Block(parent_block_number),
                rev_reg_entry,
            },
        )
    }
}

} // verus!
