use vstd::prelude::*;
use crate::address::Address;
use crate::authorization::Authorization;
use crate::error::Error;
use crate::event::log;
use crate::event::Event;
use crate::event::EventModel;
use crate::permission_manager::PermissionManagerInterface;
use crate::permission_manager::RegistryModel;
use crate::token::TokenInterface;

verus! {

/// A token contract that keeps no books: it accepts every burn and every
/// transfer, changes nothing and emits nothing. It stands in for a token
/// where only the redemption contract is under test.
pub struct Mock {
    address: Address,
}

impl View for Mock {
    type V = Address;

    closed spec fn view(&self) -> Address {
        self.address
    }
}

impl Mock {
    /// A mock token at `address`.
    pub fn new(address: Address) -> (m: Mock)
        ensures
            m@ == address,
    {
        Mock { address }
    }
}

impl TokenInterface for Mock {
    open spec fn sound(&self) -> bool {
        true
    }

    open spec fn address_of(state: Address) -> Address {
        state
    }

    open spec fn burn_result(
        state: Address,
        signers: Seq<Address>,
        pm: RegistryModel,
        account: Address,
        amount: i128,
        caller: Address,
    ) -> Result<(Address, Seq<EventModel>), Error> {
        Ok((state, Seq::empty()))
    }

    open spec fn transfer_result(
        state: Address,
        signers: Seq<Address>,
        pm: RegistryModel,
        from: Address,
        to: Address,
        amount: i128,
    ) -> Result<(Address, Seq<EventModel>), Error> {
        Ok((state, Seq::empty()))
    }

    fn address(&self) -> (a: Address) {
        self.address
    }

    fn burn<P: PermissionManagerInterface>(
        &mut self,
        auth: &Authorization,
        pm: &P,
        account: Address,
        amount: i128,
        caller: Address,
    ) -> (r: Result<Vec<Event>, Error>) {
        let events: Vec<Event> = Vec::new();
        assert(log(events@) =~= Seq::<EventModel>::empty());
        Ok(events)
    }

    fn transfer<P: PermissionManagerInterface>(
        &mut self,
        auth: &Authorization,
        pm: &P,
        from: Address,
        to: Address,
        amount: i128,
    ) -> (r: Result<Vec<Event>, Error>) {
        let events: Vec<Event> = Vec::new();
        assert(log(events@) =~= Seq::<EventModel>::empty());
        Ok(events)
    }

    fn fork(&self) -> (t: Self) {
        Mock { address: self.address }
    }
}

} // verus!
