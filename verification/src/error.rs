use vstd::prelude::*;

verus! {

/// The classes of failure. Every failure aborts the call that met it and
/// leaves all state as it was.
#[derive(Clone, Copy, Debug, PartialEq, Eq, Structural, Hash)]
pub enum ErrorKind {
    Authorization,
    State,
    Validation,
    Policy,
    Configuration,
    Paused,
}

/// Why a call was rejected.
#[derive(Clone, Copy, Debug, PartialEq, Eq, Structural, Hash)]
pub enum Error {
    /// A principal whose authorization the call needs did not give it.
    SignatureMissing,
    /// The caller does not hold the role that the call needs.
    RoleMissing,
    /// The call is reserved to the principal and the caller is someone else.
    NotPrincipal,
    /// The redemption is not in the status that the transition starts from.
    StatusMismatch,
    /// The idempotency key was consumed by an earlier call.
    KeyUsed,
    /// The presented nonce is not the stored one.
    NonceMismatch,
    /// The account does not hold the role to be removed.
    RoleNotHeld,
    /// The account holds less than the amount to be taken from it.
    InsufficientBalance,
    /// The ledger is not paused, so it cannot be resumed.
    NotPaused,
    /// The amount is zero or negative.
    NonPositiveAmount,
    /// The batch holds no operation.
    EmptyBatch,
    /// An account that must be whitelisted is not.
    NotWhitelisted,
    /// The token is not registered with the redemption contract.
    TokenNotRegistered,
    /// The request is too long to be hashed.
    TextTooLong,
    /// A counter or an amount would leave its range.
    Overflow,
    /// The Whitelisted role cannot be renounced by its holder.
    ProtectedRole,
    /// No permission manager has been configured.
    PermissionManagerNotSet,
    /// No redemption contract has been configured.
    RedemptionNotSet,
    /// The collaborator handed in is not the configured one, or no contract
    /// is known under the address.
    UnknownContract,
    /// The ledger is paused.
    Paused,
}

impl Error {
    /// The class that a failure belongs to.
    pub open spec fn class(self) -> ErrorKind {
        match self {
            Error::SignatureMissing | Error::RoleMissing | Error::NotPrincipal => {
                ErrorKind::Authorization
            },
            Error::StatusMismatch
            | Error::KeyUsed
            | Error::NonceMismatch
            | Error::RoleNotHeld
            | Error::InsufficientBalance
            | Error::NotPaused => ErrorKind::State,
            Error::NonPositiveAmount
            | Error::EmptyBatch
            | Error::NotWhitelisted
            | Error::TokenNotRegistered
            | Error::TextTooLong
            | Error::Overflow => ErrorKind::Validation,
            Error::ProtectedRole => ErrorKind::Policy,
            Error::PermissionManagerNotSet | Error::RedemptionNotSet | Error::UnknownContract => {
                ErrorKind::Configuration
            },
            Error::Paused => ErrorKind::Paused,
        }
    }

    /// The class of the failure.
    pub fn kind(&self) -> (k: ErrorKind)
        ensures
            k == self.class(),
    {
        match self {
            Error::SignatureMissing | Error::RoleMissing | Error::NotPrincipal => {
                ErrorKind::Authorization
            },
            Error::StatusMismatch
            | Error::KeyUsed
            | Error::NonceMismatch
            | Error::RoleNotHeld
            | Error::InsufficientBalance
            | Error::NotPaused => ErrorKind::State,
            Error::NonPositiveAmount
            | Error::EmptyBatch
            | Error::NotWhitelisted
            | Error::TokenNotRegistered
            | Error::TextTooLong
            | Error::Overflow => ErrorKind::Validation,
            Error::ProtectedRole => ErrorKind::Policy,
            Error::PermissionManagerNotSet | Error::RedemptionNotSet | Error::UnknownContract => {
                ErrorKind::Configuration
            },
            Error::Paused => ErrorKind::Paused,
        }
    }
}

} // verus!
