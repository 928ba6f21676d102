//! The closed set of errors raised by validation, the codec and the event
//! decoder. Each variant carries the values a caller needs to act on the
//! failure without re-deriving state.

use vstd::prelude::*;
use vstd::string::StringExecFns;

use crate::codec::append_dec_u64;
use crate::wire::dec_chars;

verus! {

/// Mathematical value of an error: its kind and the values it carries.
///
/// The human-readable diagnostic of a serialization failure is rendered text,
/// not part of the model; every other field is.
#[verifier::ext_equal]
pub enum ErrorSpec {
    /// An accumulator token was empty.
    InvalidAccumulator,
    /// The entry and the ledger both name a previous accumulator, and the
    /// two differ.
    AccumulatorMismatch { ledger: Seq<char>, local: Seq<char> },
    /// The ledger records a previous accumulator but the entry names none.
    MissingLocalPrevious,
    /// The entry names a previous accumulator but the ledger records none.
    UnexpectedLocalPrevious,
    /// The entry's issuer differs from the status list's issuer.
    IssuerMismatch { entry_issuer: Seq<char>, status_list_issuer: Seq<char> },
    /// Wire text or bytes could not be produced or understood.
    SerializationError,
    /// A positional field of a ledger log record could not be decoded.
    EventDecodeError { index: nat, cause: Box<ErrorSpec> },
}

/// An error of this crate. All errors are terminal for the operation that
/// raised them; nothing is retried internally.
#[derive(Debug, PartialEq)]
pub enum VdrError {
    /// An accumulator token was empty.
    InvalidAccumulator,
    /// The entry and the ledger both name a previous accumulator, and the
    /// two differ. Carries both values for diagnosability.
    AccumulatorMismatch { ledger: String, local: String },
    /// The ledger records a previous accumulator but the entry names none:
    /// the caller attempts to append without linking to existing history.
    MissingLocalPrevious,
    /// The entry names a previous accumulator but the ledger records none:
    /// the caller claims a predecessor the ledger has no record of.
    UnexpectedLocalPrevious,
    /// The entry's issuer differs from the status list's issuer. Carries
    /// both identifiers.
    IssuerMismatch { entry_issuer: String, status_list_issuer: String },
    /// Wire text or bytes could not be produced or understood. Carries the
    /// parse diagnostic.
    SerializationError { message: String },
    /// A positional field of a ledger log record could not be decoded.
    /// Carries the field index and the underlying cause.
    EventDecodeError { index: usize, cause: Box<VdrError> },
}

/// The model that a [`VdrError`] value stands for.
pub open spec fn error_view(e: VdrError) -> ErrorSpec
    decreases e,
{
    match e {
        VdrError::InvalidAccumulator => ErrorSpec::InvalidAccumulator,
        VdrError::AccumulatorMismatch { ledger, local } => ErrorSpec::AccumulatorMismatch {
            ledger: ledger@,
            local: local@,
        },
        VdrError::MissingLocalPrevious => ErrorSpec::MissingLocalPrevious,
        VdrError::UnexpectedLocalPrevious => ErrorSpec::UnexpectedLocalPrevious,
        VdrError::IssuerMismatch { entry_issuer, status_list_issuer } => {
            ErrorSpec::IssuerMismatch {
                entry_issuer: entry_issuer@,
                status_list_issuer: status_list_issuer@,
            }
        },
        VdrError::SerializationError { message } => ErrorSpec::SerializationError,
        VdrError::EventDecodeError { index, cause } => ErrorSpec::EventDecodeError {
            index: index as nat,
            cause: Box::new(error_view(*cause)),
        },
    }
}

impl View for VdrError {
    type V = ErrorSpec;

    open spec fn view(&self) -> ErrorSpec {
        error_view(*self)
    }
}

/// The text that [`VdrError::message`] renders for an error.
pub open spec fn spec_message(e: VdrError) -> Seq<char>
    decreases e,
{
    match e {
        VdrError::InvalidAccumulator => "Incorrect Accumulator: the token is empty"@,
        VdrError::AccumulatorMismatch { ledger, local } => "prev_accum mismatch: expected "@
            + ledger@ + ", found "@ + local@,
        VdrError::MissingLocalPrevious => "prev_accum not provided locally, but exists on the ledger"@,
        VdrError::UnexpectedLocalPrevious => "prev_accum provided locally, but does not exist on the ledger"@,
        VdrError::IssuerMismatch { entry_issuer, status_list_issuer } => "issuer mismatch: entry issuer "@
            + entry_issuer@ + " != status list issuer "@ + status_list_issuer@,
        VdrError::SerializationError { message } => message@,
        VdrError::EventDecodeError { index, cause } => "Unable to decode log field "@ + dec_chars(
            index as int,
        ) + ": "@ + spec_message(*cause),
    }
}

impl VdrError {
    /// Renders the error as human-readable text. Rendering happens only
    /// here, at the boundary: consumers branch on the variant, not on text.
    pub fn message(&self) -> (r: String)
        ensures
            r@ == spec_message(*self),
        decreases *self,
    {
        match self {
            VdrError::InvalidAccumulator => String::from_str(
                "Incorrect Accumulator: the token is empty",
            ),
            VdrError::AccumulatorMismatch { ledger, local } => {
                let mut m = String::from_str("prev_accum mismatch: expected ");
                m.append(ledger.as_str());
                m.append(", found ");
                m.append(local.as_str());
                m
            },
            VdrError::MissingLocalPrevious => String::from_str(
                "prev_accum not provided locally, but exists on the ledger",
            ),
            VdrError::UnexpectedLocalPrevious => String::from_str(
                "prev_accum provided locally, but does not exist on the ledger",
            ),
            VdrError::IssuerMismatch { entry_issuer, status_list_issuer } => {
                let mut m = String::from_str("issuer mismatch: entry issuer ");
                m.append(entry_issuer.as_str());
                m.append(" != status list issuer ");
                m.append(status_list_issuer.as_str());
                m
            },
            VdrError::SerializationError { message } => message.clone(),
            VdrError::EventDecodeError { index, cause } => {
                let mut m = String::from_str("Unable to decode log field ");
                append_dec_u64(&mut m, *index as u64);
                m.append(": ");
                let rest = cause.message();
                m.append(rest.as_str());
                m
            },
        }
    }
}

} // verus!
