//! The revocation registry entry: one proposed or confirmed update to a
//! registry's accumulator chain.

use vstd::prelude::*;

use crate::accumulator::{opt_accumulator_view, Accumulator};
use crate::identifiers::{RevocationRegistryDefinitionId, DID};

verus! {

/// Mathematical value of the entry data.
#[verifier::ext_equal]
pub struct EntryDataView {
    pub current_accumulator: Seq<char>,
    pub prev_accumulator: Option<Seq<char>>,
    pub issued: Option<Seq<u32>>,
    pub revoked: Option<Seq<u32>>,
}

/// Mathematical value of a whole entry.
#[verifier::ext_equal]
pub struct EntryView {
    pub rev_reg_def_id: Seq<char>,
    pub issuer_id: Seq<char>,
    pub data: EntryDataView,
}

/// The revocation registry entry data stored in the registry: the new
/// accumulator, the accumulator it supersedes (absent for the first entry of
/// a registry), and the credential index sets this update issues or revokes.
#[derive(Debug, Clone, PartialEq)]
pub struct RevocationRegistryEntryData {
    pub current_accumulator: Accumulator,
    pub prev_accumulator: Option<Accumulator>,
    pub issued: Option<Vec<u32>>,
    pub revoked: Option<Vec<u32>>,
}

/// The model of an optional index list.
pub open spec fn opt_indices_view(o: Option<Vec<u32>>) -> Option<Seq<u32>> {
    match o {
        Some(v) => Some(v@),
        None => None,
    }
}

impl View for RevocationRegistryEntryData {
    type V = EntryDataView;

    open spec fn view(&self) -> EntryDataView {
        EntryDataView {
            current_accumulator: self.current_accumulator@,
            prev_accumulator: opt_accumulator_view(self.prev_accumulator),
            issued: opt_indices_view(self.issued),
            revoked: opt_indices_view(self.revoked),
        }
    }
}

/// A revocation registry entry: the registry it belongs to, the issuer
/// publishing it, and the entry data. An immutable value object.
#[derive(Debug, Clone, PartialEq)]
pub struct RevocationRegistryEntry {
    pub rev_reg_def_id: RevocationRegistryDefinitionId,
    pub issuer_id: DID,
    pub rev_reg_entry_data: RevocationRegistryEntryData,
}

impl View for RevocationRegistryEntry {
    type V = EntryView;

    open spec fn view(&self) -> EntryView {
        EntryView {
            rev_reg_def_id: self.rev_reg_def_id@,
            issuer_id: self.issuer_id@,
            data: self.rev_reg_entry_data@,
        }
    }
}

impl RevocationRegistryEntry {
    /// Assembles an entry from its parts.
    pub fn new(
        rev_reg_def_id: RevocationRegistryDefinitionId,
        issuer_id: DID,
        current_accumulator: Accumulator,
        prev_accumulator: Option<Accumulator>,
        issued: Option<Vec<u32>>,
        revoked: Option<Vec<u32>>,
    ) -> (r: RevocationRegistryEntry)
        ensures
            r@ == (EntryView {
                rev_reg_def_id: rev_reg_def_id@,
                issuer_id: issuer_id@,
                data: EntryDataView {
                    current_accumulator: current_accumulator@,
                    prev_accumulator: opt_accumulator_view(prev_accumulator),
                    issued: opt_indices_view(issued),
                    revoked: opt_indices_view(revoked),
                },
            }),
    {
        RevocationRegistryEntry {
            rev_reg_def_id,
            issuer_id,
            rev_reg_entry_data: RevocationRegistryEntryData {
                prev_accumulator,
                current_accumulator,
                issued,
                revoked,
            },
        }
    }
}

} // verus!
