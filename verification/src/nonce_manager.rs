use vstd::prelude::*;
use crate::address::Address;
use crate::error::Error;
use crate::table::distinct_ids;
use crate::table::entries_map;
use crate::table::Table;

verus! {

/// Per-account replay counters: each account's nonce starts at 0 and moves
/// up by one with every accepted consumption.
pub struct NonceManager {
    owner: Address,
    nonces: Table<Address, u128>,
}

/// What a `NonceManager` holds.
pub struct NonceModel {
    pub owner: Address,
    pub nonces: Map<Address, u128>,
}

impl NonceModel {
    /// The nonce that `user` must present next.
    pub open spec fn nonce(self, user: Address) -> u128 {
        if self.nonces.dom().contains(user) {
            self.nonces[user]
        } else {
            0
        }
    }

    /// The outcome of presenting `nonce` for `user`.
    pub open spec fn consume(self, user: Address, nonce: u128) -> Result<NonceModel, Error> {
        if nonce != self.nonce(user) {
            Err(Error::NonceMismatch)
        } else if nonce == u128::MAX {
            Err(Error::Overflow)
        } else {
            Ok(NonceModel { nonces: self.nonces.insert(user, (nonce + 1) as u128), ..self })
        }
    }
}

impl View for NonceManager {
    type V = NonceModel;

    closed spec fn view(&self) -> NonceModel {
        NonceModel { owner: self.owner, nonces: self.nonces@ }
    }
}

impl NonceManager {
    /// The representation invariant.
    pub closed spec fn wf(&self) -> bool {
        self.nonces.wf()
    }

    /// A manager of `owner` in which every nonce is 0.
    pub fn new(owner: Address) -> (m: NonceManager)
        ensures
            m.wf(),
            m@ == (NonceModel { owner, nonces: Map::empty() }),
    {
        NonceManager { owner, nonces: Table::new() }
    }

    pub fn get_owner(&self) -> (o: Option<Address>)
        ensures
            o == Some(self@.owner),
    {
        Some(self.owner)
    }

    /// The nonce that `user` must present next.
    pub fn get_nonce(&self, user: Address) -> (n: u128)
        requires
            self.wf(),
        ensures
            n == self@.nonce(user),
    {
        match self.nonces.get(&user) {
            Some(n) => n,
            None => 0,
        }
    }

    /// Accepts `nonce` if it is the stored one and then stores its successor.
    pub fn consume_nonce(&mut self, user: Address, nonce: u128) -> (r: Result<(), Error>)
        requires
            old(self).wf(),
        ensures
            final(self).wf(),
            match old(self)@.consume(user, nonce) {
                Ok(next) => r == Ok::<(), Error>(()) && final(self)@ == next,
                Err(e) => r == Err::<(), Error>(e) && final(self)@ == old(self)@,
            },
    {
        let current = self.get_nonce(user);
        if nonce != current {
            return Err(Error::NonceMismatch);
        }
        if nonce == u128::MAX {
            return Err(Error::Overflow);
        }
        self.nonces.insert(user, nonce + 1);
        Ok(())
    }
    /// The manager of `owner` with the given nonces; where an account is
    /// listed more than once, its last entry counts.
    pub fn restore(owner: Address, nonces: Vec<(Address, u128)>) -> (m: NonceManager)
        ensures
            m.wf(),
            m@ == (NonceModel { owner, nonces: entries_map(nonces@) }),
    {
        NonceManager { owner, nonces: Table::from_entries(nonces) }
    }

    /// The stored nonces as a list in which no account occurs twice.
    pub fn nonces(&self) -> (list: Vec<(Address, u128)>)
        requires
            self.wf(),
        ensures
            distinct_ids(list@),
            entries_map(list@) == self@.nonces,
    {
        self.nonces.to_entries()
    }
}

} // verus!
