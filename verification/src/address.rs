//! Account identities, as the ledger sees them.

use vstd::prelude::*;

verus! {

/// What kind of chain entity an address names. The ledger itself only cares
/// whether an address is a plain account or some kind of contract.
#[derive(Clone, Copy, Debug, PartialEq, Eq, Structural)]
pub enum AddressType {
    /// A plain user account.
    Account,
    /// A system contract.
    SystemContract,
    /// An ordinary public contract, such as a token contract or this one.
    PublicContract,
    /// A zero-knowledge contract.
    ZkContract,
}

/// An account identity: a kind tag and a 20-byte identifier, held as the 4
/// high bytes and the 16 low bytes so that two addresses are equal exactly
/// when all 20 bytes and the kind agree.
#[derive(Clone, Copy, Debug, PartialEq, Eq, Structural)]
pub struct Address {
    /// The kind of entity the address names.
    pub address_type: AddressType,
    /// The 4 high bytes of the identifier.
    pub identifier_high: u32,
    /// The 16 low bytes of the identifier.
    pub identifier_low: u128,
}

} // verus!
