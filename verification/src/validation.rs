//! The three-way accumulator-consistency validation protocol.
//!
//! Validation is stateless and side-effect-free: each check is a pure
//! decision function over the entry and, optionally, ledger-supplied state.
//! The core invariant: the accumulators of a registry form an append-only,
//! singly-linked history, and every non-initial entry must name its
//! immediate predecessor exactly.

use vstd::prelude::*;

use crate::accumulator::{
    opt_accumulator_view, optional_accumulator, parse_optional_accumulator, Accumulator,
};
use crate::entry::{EntryDataView, EntryView, RevocationRegistryEntry};
use crate::error::{ErrorSpec, VdrError};
use crate::status_list::{opt_status_list_view, RevocationStatusList, StatusListView};

verus! {

/// Local validation: the current accumulator must be present, and the
/// previous one, when named, must be present too. The current accumulator is
/// checked before the previous one.
pub open spec fn local_check(d: EntryDataView) -> Option<ErrorSpec> {
    if d.current_accumulator.len() == 0 {
        Some(ErrorSpec::InvalidAccumulator)
    } else {
        match d.prev_accumulator {
            Some(p) => if p.len() == 0 {
                Some(ErrorSpec::InvalidAccumulator)
            } else {
                None
            },
            None => None,
        }
    }
}

/// Ledger-pair validation: reconciles the entry's declared previous
/// accumulator against what the ledger reports, under a strict four-way case
/// split.
pub open spec fn ledger_pair_check(
    local: Option<Seq<char>>,
    ledger: Option<Seq<char>>,
) -> Option<ErrorSpec> {
    match (local, ledger) {
        (Some(l), Some(g)) => if l == g {
            None
        } else {
            Some(ErrorSpec::AccumulatorMismatch { ledger: g, local: l })
        },
        (None, Some(g)) => Some(ErrorSpec::MissingLocalPrevious),
        (Some(l), None) => Some(ErrorSpec::UnexpectedLocalPrevious),
        (None, None) => None,
    }
}

/// Status-list validation: local validation, then issuer consistency, then
/// ledger-pair validation against the accumulator the status list records.
/// Absence of a status list skips everything after local validation, which
/// supports offline validation before ledger state has been resolved.
pub open spec fn status_list_check(e: EntryView, sl: Option<StatusListView>) -> Option<ErrorSpec> {
    if local_check(e.data) is Some {
        local_check(e.data)
    } else {
        match sl {
            None => None,
            Some(s) => if s.issuer_id != e.issuer_id {
                Some(
                    ErrorSpec::IssuerMismatch {
                        entry_issuer: e.issuer_id,
                        status_list_issuer: s.issuer_id,
                    },
                )
            } else {
                ledger_pair_check(e.data.prev_accumulator, optional_accumulator(s.current_accumulator))
            },
        }
    }
}

impl RevocationRegistryEntry {
    /// Local validation: succeeds exactly when [`local_check`] passes, and
    /// otherwise returns the first failure it finds.
    pub fn validate(&self) -> (r: Result<(), VdrError>)
        ensures
            match r {
                Ok(()) => local_check(self@.data) is None,
                Err(e) => local_check(self@.data) == Some(e@),
            },
    {
        match self.rev_reg_entry_data.current_accumulator.validate() {
            Err(e) => return Err(e),
            Ok(()) => {},
        }
        match &self.rev_reg_entry_data.prev_accumulator {
            Some(prev_acc) => match prev_acc.validate() {
                Err(e) => Err(e),
                Ok(()) => Ok(()),
            },
            None => Ok(()),
        }
    }

    /// Ledger-pair validation: succeeds exactly when [`ledger_pair_check`]
    /// passes on the entry's previous accumulator and the ledger-reported
    /// one, and otherwise returns that check's error, with both values kept
    /// for diagnosability on a mismatch.
    pub fn validate_with_ledger(&self, prev_accum_from_ledger: Option<Accumulator>) -> (r: Result<
        (),
        VdrError,
    >)
        ensures
            match r {
                Ok(()) => ledger_pair_check(
                    self@.data.prev_accumulator,
                    opt_accumulator_view(prev_accum_from_ledger),
                ) is None,
                Err(e) => ledger_pair_check(
                    self@.data.prev_accumulator,
                    opt_accumulator_view(prev_accum_from_ledger),
                ) == Some(e@),
            },
    {
        match (&self.rev_reg_entry_data.prev_accumulator, prev_accum_from_ledger) {
            (Some(local), Some(ledger)) => {
                if local.0 == ledger.0 {
                    Ok(())
                } else {
                    Err(
                        VdrError::AccumulatorMismatch {
                            ledger: ledger.0.clone(),
                            local: local.0.clone(),
                        },
                    )
                }
            },
            (None, Some(_)) => Err(VdrError::MissingLocalPrevious),
            (Some(_), None) => Err(VdrError::UnexpectedLocalPrevious),
            (None, None) => Ok(()),
        }
    }

    /// The full reconciliation entry point: succeeds exactly when
    /// [`status_list_check`] passes, and otherwise returns that check's
    /// error.
    pub fn validate_with_status_list(&self, status_list: &Option<RevocationStatusList>) -> (r:
        Result<(), VdrError>)
        ensures
            match r {
                Ok(()) => status_list_check(self@, opt_status_list_view(*status_list)) is None,
                Err(e) => status_list_check(self@, opt_status_list_view(*status_list)) == Some(e@),
            },
    {
        match self.validate() {
            Err(e) => return Err(e),
            Ok(()) => {},
        }
        match status_list {
            None => Ok(()),
            Some(sl) => {
                if self.issuer_id.0 != sl.issuer_id.0 {
                    return Err(
                        VdrError::IssuerMismatch {
                            entry_issuer: self.issuer_id.0.clone(),
                            status_list_issuer: sl.issuer_id.0.clone(),
                        },
                    );
                }
                let ledger_accum = parse_optional_accumulator(sl.current_accumulator.as_str());
                self.validate_with_ledger(ledger_accum)
            },
        }
    }
}

/// The ledger-pair truth table, written out case by case: equal predecessors
/// pass, unequal ones fail with a mismatch carrying both values, a
/// predecessor on one side only fails naming the missing side, and two
/// absent predecessors pass (the legitimate first entry of a registry).
pub proof fn lemma_ledger_pair_cases(local: Option<Seq<char>>, ledger: Option<Seq<char>>)
    ensures
        (local is Some && ledger is Some && local.unwrap() == ledger.unwrap()) ==> ledger_pair_check(
            local,
            ledger,
        ) is None,
        (local is Some && ledger is Some && local.unwrap() != ledger.unwrap()) ==> ledger_pair_check(
            local,
            ledger,
        ) == Some(
            ErrorSpec::AccumulatorMismatch { ledger: ledger.unwrap(), local: local.unwrap() },
        ),
        (local is None && ledger is Some) ==> ledger_pair_check(local, ledger) == Some(
            ErrorSpec::MissingLocalPrevious,
        ),
        (local is Some && ledger is None) ==> ledger_pair_check(local, ledger) == Some(
            ErrorSpec::UnexpectedLocalPrevious,
        ),
        (local is None && ledger is None) ==> ledger_pair_check(local, ledger) is None,
{
}

/// A missing status list skips the reconciliation steps entirely:
/// status-list validation without a status list is exactly local validation.
pub proof fn lemma_status_list_absent_is_local(e: EntryView)
    ensures
        status_list_check(e, None) == local_check(e.data),
{
}

/// An issuer mismatch is reported only when a status list is supplied and
/// its issuer differs from the entry's; without a status list it is never
/// reported.
pub proof fn lemma_issuer_mismatch_only_with_status_list(e: EntryView, sl: Option<StatusListView>)
    ensures
        (status_list_check(e, sl) matches Some(err) && err is IssuerMismatch) ==> (sl matches Some(
            s,
        ) && s.issuer_id != e.issuer_id),
        sl is None ==> !(status_list_check(e, sl) matches Some(err) && err is IssuerMismatch),
{
}

} // verus!
