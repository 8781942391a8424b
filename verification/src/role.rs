use vstd::prelude::*;

verus! {

/// The capabilities that the registry can assign to an account.
#[derive(Clone, Copy, Debug, PartialEq, Eq, Structural, Hash)]
pub enum Role {
    Minter,
    Pauser,
    Burner,
    Whitelister,
    Whitelisted,
    RedemptionExecutor,
}

/// Number of roles.
pub const ROLE_COUNT: usize = 6;

impl Role {
    /// Position of the role in per-role tables.
    pub open spec fn slot(self) -> int {
        match self {
            Role::Minter => 0,
            Role::Pauser => 1,
            Role::Burner => 2,
            Role::Whitelister => 3,
            Role::Whitelisted => 4,
            Role::RedemptionExecutor => 5,
        }
    }

    /// Position of the role in per-role tables.
    pub fn index(&self) -> (i: usize)
        ensures
            i == self.slot(),
            i < ROLE_COUNT,
    {
        match self {
            Role::Minter => 0,
            Role::Pauser => 1,
            Role::Burner => 2,
            Role::Whitelister => 3,
            Role::Whitelisted => 4,
            Role::RedemptionExecutor => 5,
        }
    }

    /// The short symbol under which the role is known on the ledger.
    pub fn symbol(&self) -> (s: &'static str)
        ensures
            s@ == match *self {
                Role::Minter => "MINTER"@,
                Role::Pauser => "PAUSER"@,
                Role::Burner => "BURNER"@,
                Role::Whitelister => "WLISTER"@,
                Role::Whitelisted => "WLISTED"@,
                Role::RedemptionExecutor => "REXECUTOR"@,
            },
    {
        match self {
            Role::Minter => "MINTER",
            Role::Pauser => "PAUSER",
            Role::Burner => "BURNER",
            Role::Whitelister => "WLISTER",
            Role::Whitelisted => "WLISTED",
            Role::RedemptionExecutor => "REXECUTOR",
        }
    }
}

} // verus!
