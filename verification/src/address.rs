use vstd::prelude::*;
use crate::table::Key;

verus! {

/// Whether an address names a user account or a deployed contract.
#[derive(Clone, Copy, Debug, PartialEq, Eq, Structural, Hash)]
pub enum AddressKind {
    Account,
    Contract,
}

/// A ledger principal: its kind and its 256-bit identifier, held as two
/// 128-bit halves (most significant first).
#[derive(Clone, Copy, Debug, PartialEq, Eq, Structural, Hash)]
pub struct Address {
    pub kind: AddressKind,
    pub hi: u128,
    pub lo: u128,
}

impl Address {
    /// The user account with the given identifier.
    pub fn account(hi: u128, lo: u128) -> (a: Address)
        ensures
            a == (Address { kind: AddressKind::Account, hi, lo }),
    {
        Address { kind: AddressKind::Account, hi, lo }
    }

    /// The deployed contract with the given identifier.
    pub fn contract(hi: u128, lo: u128) -> (a: Address)
        ensures
            a == (Address { kind: AddressKind::Contract, hi, lo }),
    {
        Address { kind: AddressKind::Contract, hi, lo }
    }
}

impl Key for Address {
    type Id = Address;

    open spec fn id(&self) -> Address {
        *self
    }

    fn same(&self, other: &Self) -> (b: bool) {
        self.kind == other.kind && self.hi == other.hi && self.lo == other.lo
    }

    fn duplicate(&self) -> (k: Self) {
        *self
    }
}

} // verus!
