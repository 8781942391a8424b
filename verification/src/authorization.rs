use vstd::prelude::*;
use crate::address::Address;

verus! {

/// The principals that authorized the current invocation. A contract that
/// invokes another one authorizes the call with its own address.
pub struct Authorization {
    pub signers: Vec<Address>,
}

impl Authorization {
    /// Whether `who` authorized the invocation.
    pub open spec fn covers(&self, who: Address) -> bool {
        self.signers@.contains(who)
    }

    /// An invocation that nobody authorized.
    pub fn none() -> (a: Authorization)
        ensures
            a.signers@ == Seq::<Address>::empty(),
    {
        Authorization { signers: Vec::new() }
    }

    /// An invocation authorized by `who` alone.
    pub fn of(who: Address) -> (a: Authorization)
        ensures
            a.signers@ == seq![who],
    {
        let mut signers = Vec::new();
        signers.push(who);
        Authorization { signers }
    }

    /// An invocation authorized by each of `signers`.
    pub fn of_all(signers: Vec<Address>) -> (a: Authorization)
        ensures
            a.signers == signers,
    {
        Authorization { signers }
    }

    /// Whether `who` authorized the invocation.
    pub fn authorizes(&self, who: &Address) -> (b: bool)
        ensures
            b == self.covers(*who),
    {
        let mut i: usize = 0;
        while i < self.signers.len()
            invariant
                i <= self.signers@.len(),
                forall|j: int| 0 <= j < i ==> self.signers@[j] != *who,
            decreases self.signers@.len() - i,
        {
            if self.signers[i] == *who {
                return true;
            }
            i += 1;
        }
        false
    }
}

} // verus!
