//! Addresses on the network, as plain values.

use vstd::prelude::*;

verus! {

/// A network address: an account or a contract, with its 32-byte identifier
/// given as two big-endian halves.
#[derive(Copy, Clone, Debug, PartialEq, Eq, Structural)]
pub struct Address {
    pub is_contract: bool,
    pub hi: u128,
    pub lo: u128,
}

impl Address {
    pub fn account(hi: u128, lo: u128) -> (address: Address)
        ensures
            address == (Address { is_contract: false, hi, lo }),
    {
        Address { is_contract: false, hi, lo }
    }

    pub fn contract(hi: u128, lo: u128) -> (address: Address)
        ensures
            address == (Address { is_contract: true, hi, lo }),
    {
        Address { is_contract: true, hi, lo }
    }
}

/// Whether an optional address is present and equal to the given one.
pub fn is_address(slot: Option<Address>, address: Address) -> (same: bool)
    ensures
        same == (slot == Some(address)),
{
    match slot {
        Some(held) => held == address,
        None => false,
    }
}

} // verus!
