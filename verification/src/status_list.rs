//! The revocation status list: the ledger's authoritative, point-in-time
//! projection of a registry's recorded state.

use vstd::prelude::*;

use crate::identifiers::{RevocationRegistryDefinitionId, DID};

verus! {

/// Mathematical value of a status list.
#[verifier::ext_equal]
pub struct StatusListView {
    pub rev_reg_def_id: Seq<char>,
    pub issuer_id: Seq<char>,
    pub current_accumulator: Seq<char>,
    pub revocation_list: Seq<u32>,
    pub timestamp: u64,
}

/// A point-in-time snapshot of the ledger's recorded state for a registry:
/// the accumulator it currently records (empty when the registry is not yet
/// initialized), the full per-index revocation state, and the moment the
/// snapshot was resolved. Constructed only from ledger-resolved state and
/// read-only input to validation; this crate never mutates one.
#[derive(Debug, Clone, PartialEq)]
pub struct RevocationStatusList {
    pub rev_reg_def_id: RevocationRegistryDefinitionId,
    pub issuer_id: DID,
    pub current_accumulator: String,
    pub revocation_list: Vec<u32>,
    pub timestamp: u64,
}

impl View for RevocationStatusList {
    type V = StatusListView;

    open spec fn view(&self) -> StatusListView {
        StatusListView {
            rev_reg_def_id: self.rev_reg_def_id@,
            issuer_id: self.issuer_id@,
            current_accumulator: self.current_accumulator@,
            revocation_list: self.revocation_list@,
            timestamp: self.timestamp,
        }
    }
}

/// The model of an optional status list.
pub open spec fn opt_status_list_view(o: Option<RevocationStatusList>) -> Option<StatusListView> {
    match o {
        Some(sl) => Some(sl@),
        None => None,
    }
}

} // verus!
