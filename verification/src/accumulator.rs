//! The accumulator value: a validated opaque ledger-accumulator token.
//!
//! Only the token's presence is checked; its cryptographic validity is out
//! of scope. Construction from a raw string is total, validation is a
//! separate explicit step, so invalid-but-constructed values can exist
//! transiently while a record is being built.

use vstd::prelude::*;
use vstd::string::StringExecFns;
use vstd::utf8::encode_utf8;

use crate::error::{ErrorSpec, VdrError};

verus! {

/// An opaque accumulator token. Equality is byte-exact string equality; no
/// normalization is applied.
#[derive(Debug, Clone, PartialEq)]
pub struct Accumulator(pub String);

impl View for Accumulator {
    type V = Seq<char>;

    open spec fn view(&self) -> Seq<char> {
        self.0@
    }
}

impl Accumulator {
    /// Wraps a raw string; construction never fails.
    pub fn new(acc: &str) -> (r: Self)
        ensures
            r@ == acc@,
    {
        Accumulator(String::from_str(acc))
    }

    /// Checks that the token is present: succeeds exactly on non-empty
    /// tokens, and fails with [`VdrError::InvalidAccumulator`] on the empty
    /// one. No other constraint is imposed.
    pub fn validate(&self) -> (r: Result<(), VdrError>)
        ensures
            match r {
                Ok(()) => self@.len() > 0,
                Err(e) => self@.len() == 0 && e@ == ErrorSpec::InvalidAccumulator,
            },
    {
        if self.0.as_str().is_empty() {
            Err(VdrError::InvalidAccumulator)
        } else {
            Ok(())
        }
    }

    /// The underlying token.
    pub fn as_str(&self) -> (r: &str)
        ensures
            r@ == self@,
    {
        self.0.as_str()
    }

    /// The token's bytes, used verbatim when the accumulator is submitted as
    /// a standalone contract argument.
    pub fn as_bytes(&self) -> (r: &[u8])
        ensures
            r@ == encode_utf8(self@),
    {
        self.0.as_str().as_bytes()
    }
}

impl From<&str> for Accumulator {
    fn from(acc: &str) -> (r: Accumulator)
        ensures
            r@ == acc@,
    {
        Accumulator::new(acc)
    }
}

impl Default for Accumulator {
    fn default() -> (r: Accumulator)
        ensures
            r@ == Seq::<char>::empty(),
    {
        Accumulator(String::new())
    }
}

/// The model of an optional accumulator.
pub open spec fn opt_accumulator_view(o: Option<Accumulator>) -> Option<Seq<char>> {
    match o {
        Some(a) => Some(a@),
        None => None,
    }
}

/// The ledger reports "no accumulator recorded yet" as an empty string:
/// an empty raw value maps to absence, any other to a present accumulator.
pub open spec fn optional_accumulator(raw: Seq<char>) -> Option<Seq<char>> {
    if raw.len() == 0 {
        None
    } else {
        Some(raw)
    }
}

/// Applies the ledger's "empty string means absent" convention to a raw
/// ledger-supplied accumulator field.
pub fn parse_optional_accumulator(raw: &str) -> (r: Option<Accumulator>)
    ensures
        opt_accumulator_view(r) == optional_accumulator(raw@),
{
    if raw.is_empty() {
        None
    } else {
        Some(Accumulator::new(raw))
    }
}

// A spec-level constructor for a String-holding value does not exist, so the
// conversion's contract is the `ensures` on `from` above, not `from_spec`.
impl vstd::std_specs::convert::FromSpecImpl<&str> for Accumulator {
    open spec fn obeys_from_spec() -> bool {
        false
    }

    open spec fn from_spec(v: &str) -> Accumulator {
        arbitrary()
    }
}

} // verus!
