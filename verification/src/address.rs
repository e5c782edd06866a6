//! Addresses of the parties and contracts on the ledger.
use vstd::prelude::*;

verus! {

/// What an address names: an account held by a key, or a deployed contract.
#[derive(Clone, Copy, Debug, PartialEq, Eq, Structural)]
pub enum AddressKind {
    Account,
    Contract,
}

/// A ledger address: its kind and its 32-byte payload, as two big-endian halves.
#[derive(Clone, Copy, Debug, PartialEq, Eq, Structural)]
pub struct Address {
    pub kind: AddressKind,
    pub hi: u128,
    pub lo: u128,
}

impl Address {
    /// The account whose public key is the given payload.
    pub fn account(hi: u128, lo: u128) -> (address: Address)
        ensures
            address == (Address { kind: AddressKind::Account, hi, lo }),
    {
        Address { kind: AddressKind::Account, hi, lo }
    }

    /// The contract whose identifier is the given payload.
    pub fn contract(hi: u128, lo: u128) -> (address: Address)
        ensures
            address == (Address { kind: AddressKind::Contract, hi, lo }),
    {
        Address { kind: AddressKind::Contract, hi, lo }
    }
}

} // verus!
