//! Identifier wrappers: a DID and a revocation registry definition id.
//!
//! Both are opaque string tokens here; parsing them into structured
//! identifiers is an external collaborator's responsibility.

use vstd::prelude::*;
use vstd::string::StringExecFns;

verus! {

/// A decentralized identifier, kept as an opaque string.
#[derive(Debug, Clone, PartialEq)]
pub struct DID(pub String);

impl View for DID {
    type V = Seq<char>;

    open spec fn view(&self) -> Seq<char> {
        self.0@
    }
}

impl DID {
    /// Wraps a raw string; construction is total.
    pub fn new(value: &str) -> (r: Self)
        ensures
            r@ == value@,
    {
        DID(String::from_str(value))
    }

    /// The underlying string.
    pub fn as_str(&self) -> (r: &str)
        ensures
            r@ == self@,
    {
        self.0.as_str()
    }
}

impl From<&str> for DID {
    fn from(value: &str) -> (r: DID)
        ensures
            r@ == value@,
    {
        DID::new(value)
    }
}

// A spec-level constructor for a String-holding value does not exist, so the
// conversion's contract is the `ensures` on `from` above, not `from_spec`.
impl vstd::std_specs::convert::FromSpecImpl<&str> for DID {
    open spec fn obeys_from_spec() -> bool {
        false
    }

    open spec fn from_spec(v: &str) -> DID {
        arbitrary()
    }
}

impl Default for DID {
    fn default() -> (r: DID)
        ensures
            r@ == Seq::<char>::empty(),
    {
        DID(String::new())
    }
}

/// The stable identifier of a revocation registry definition, scoping all
/// accumulator history to one chain.
#[derive(Debug, Clone, PartialEq)]
pub struct RevocationRegistryDefinitionId(pub String);

impl View for RevocationRegistryDefinitionId {
    type V = Seq<char>;

    open spec fn view(&self) -> Seq<char> {
        self.0@
    }
}

impl RevocationRegistryDefinitionId {
    /// Wraps a raw string; construction is total.
    pub fn new(value: &str) -> (r: Self)
        ensures
            r@ == value@,
    {
        RevocationRegistryDefinitionId(String::from_str(value))
    }

    /// The underlying string.
    pub fn as_str(&self) -> (r: &str)
        ensures
            r@ == self@,
    {
        self.0.as_str()
    }

    /// Builds the identifier of the registry that `issuer_id` defines for
    /// the credential definition `cred_def_id` under the given `tag`.
    pub fn build(issuer_id: &DID, cred_def_id: &str, tag: &str) -> (r: Self)
        ensures
            r@ == issuer_id@ + "/anoncreds/v0/REV_REG_DEF/"@ + cred_def_id@ + "/"@ + tag@,
    {
        let mut s = String::from_str(issuer_id.0.as_str());
        s.append("/anoncreds/v0/REV_REG_DEF/");
        s.append(cred_def_id);
        s.append("/");
        s.append(tag);
        RevocationRegistryDefinitionId(s)
    }
}

impl From<&str> for RevocationRegistryDefinitionId {
    fn from(value: &str) -> (r: RevocationRegistryDefinitionId)
        ensures
            r@ == value@,
    {
        RevocationRegistryDefinitionId::new(value)
    }
}

// As for `DID`, the contract is the `ensures` on `from` above.
impl vstd::std_specs::convert::FromSpecImpl<&str> for RevocationRegistryDefinitionId {
    open spec fn obeys_from_spec() -> bool {
        false
    }

    open spec fn from_spec(v: &str) -> RevocationRegistryDefinitionId {
        arbitrary()
    }
}

} // verus!
