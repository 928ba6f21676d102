//! Validation and wire encoding for revocation registry entries of a
//! ledger-backed verifiable-credential system.
//!
//! A revocation registry tracks, over time, which credentials issued against
//! a cryptographic accumulator have been revoked or issued. Every update
//! publishes a new accumulator value that must stay consistent with the value
//! the ledger currently records. This crate holds the entry data model, the
//! accumulator-consistency validation protocol, the codec between the
//! structured record, its JSON text form and its binary contract-parameter
//! form, and the decoder for ledger-emitted creation events.

pub mod accumulator;
pub mod codec;
pub mod entry;
pub mod error;
pub mod events;
pub mod identifiers;
pub mod status_list;
pub mod validation;
pub mod wire;

pub use accumulator::Accumulator;
pub use codec::ContractParam;
pub use entry::{RevocationRegistryEntry, RevocationRegistryEntryData};
pub use error::VdrError;
pub use events::{Block, ContractEvent, EventField, RevRegEntryCreated, RevocationRegistryEvents};
pub use identifiers::{RevocationRegistryDefinitionId, DID};
pub use status_list::RevocationStatusList;
