use vstd::prelude::*;
use crate::address::Address;
use crate::error::Error;
use crate::error::ErrorKind;
use crate::event::EntryModel;
use crate::event::EventModel;
use crate::members::lemma_granted;
use crate::members::lemma_revoked;
use crate::nonce_manager::NonceModel;
use crate::permission_manager::RegistryModel;
use crate::redemption::entry_hash;
use crate::redemption::Redemption;
use crate::redemption::RedemptionModel;
use crate::redemption::RedemptionStatus;
use crate::role::Role;
use crate::token::BurnBatchOperation;
use crate::token::MintBatchOperation;
use crate::token::TokenInterface;
use crate::token::Token;
use crate::token::TokenModel;

verus! {

/// Whoever is refused the administration of a role is refused for want of
/// authorization.
pub proof fn law_refusal_is_for_want_of_authorization(
    registry: RegistryModel,
    signers: Seq<Address>,
    caller: Address,
    role: Role,
)
    ensures
        registry.refusal(signers, caller, role) matches Some(e) ==> e.class()
            == ErrorKind::Authorization,
        registry.refusal(signers, caller, role) is None <==> signers.contains(caller)
            && registry.may_administer(caller, role),
{
}

/// A mint that succeeds was asked for by a minter who authorized it, for a
/// whitelisted account and a positive amount, while the ledger was running;
/// it raises the account's balance and the supply by the amount, leaves
/// every other balance alone, and emits one mint event.
pub proof fn law_mint_effect(
    token: TokenModel,
    signers: Seq<Address>,
    pm: RegistryModel,
    account: Address,
    amount: i128,
    caller: Address,
)
    requires
        token.well_formed(),
        token.mint(signers, pm, account, amount, caller) is Ok,
    ensures
        ({
            let (next, events) = token.mint(signers, pm, account, amount, caller)->Ok_0;
            &&& !token.paused && signers.contains(caller) && pm.holds(caller, Role::Minter)
            &&& pm.holds(account, Role::Whitelisted) && amount > 0
            &&& next.well_formed()
            &&& next.total_supply() == token.total_supply() + amount
            &&& next.balance(account) == token.balance(account) + amount
            &&& forall|a: Address| a != account ==> next.balance(a) == token.balance(a)
            &&& events == seq![EventModel::Mint { contract: token.address, to: account, amount }]
        }),
{
    token.ledger.lemma_minted(account, amount);
}

/// A burn that succeeds was asked for by a burner who authorized it, for a
/// positive amount that the account held, while the ledger was running; it
/// lowers the account's balance and the supply by the amount, leaves every
/// other balance alone, and emits one burn event.
pub proof fn law_burn_effect(
    token: TokenModel,
    signers: Seq<Address>,
    pm: RegistryModel,
    account: Address,
    amount: i128,
    caller: Address,
)
    requires
        token.well_formed(),
        token.burn(signers, pm, account, amount, caller) is Ok,
    ensures
        ({
            let (next, events) = token.burn(signers, pm, account, amount, caller)->Ok_0;
            &&& !token.paused && signers.contains(caller) && pm.holds(caller, Role::Burner)
            &&& 0 < amount <= token.balance(account)
            &&& next.well_formed()
            &&& next.total_supply() == token.total_supply() - amount
            &&& next.balance(account) == token.balance(account) - amount
            &&& forall|a: Address| a != account ==> next.balance(a) == token.balance(a)
            &&& events == seq![EventModel::Burn { contract: token.address, from: account, amount }]
        }),
{
    token.ledger.lemma_burned(account, amount);
}

/// A transfer that succeeds was authorized by the sender, between two
/// whitelisted accounts, of a positive amount that the sender held, while
/// the ledger was running; it moves the amount, keeps the supply, leaves
/// every other balance alone, and emits one transfer event.
pub proof fn law_transfer_effect(
    token: TokenModel,
    signers: Seq<Address>,
    pm: RegistryModel,
    from: Address,
    to: Address,
    amount: i128,
)
    requires
        token.well_formed(),
        token.transfer(signers, pm, from, to, amount) is Ok,
    ensures
        ({
            let (next, events) = token.transfer(signers, pm, from, to, amount)->Ok_0;
            &&& !token.paused && signers.contains(from)
            &&& pm.holds(from, Role::Whitelisted) && pm.holds(to, Role::Whitelisted)
            &&& 0 < amount <= token.balance(from)
            &&& next.well_formed()
            &&& next.total_supply() == token.total_supply()
            &&& from != to ==> next.balance(from) == token.balance(from) - amount && next.balance(
                to,
            ) == token.balance(to) + amount
            &&& from == to ==> next.balance(from) == token.balance(from)
            &&& forall|a: Address| a != from && a != to ==> next.balance(a) == token.balance(a)
            &&& events == seq![EventModel::Transfer { contract: token.address, from, to, amount }]
        }),
{
    token.ledger.lemma_moved(from, to, amount);
}

/// A redemption that succeeds moves the amount from the holder to the
/// redemption contract, keeps the supply, consumes the key, and leaves the
/// request pending at the redemption contract, under the key as salt.
pub proof fn law_redeem_effect(
    token: TokenModel,
    signers: Seq<Address>,
    pm: RegistryModel,
    redemption: RedemptionModel,
    amount: i128,
    caller: Address,
    key: Seq<char>,
)
    requires
        token.well_formed(),
        token.redeem::<Redemption>(signers, pm, redemption, amount, caller, key) is Ok,
    ensures
        ({
            let (next, recorded, events) = token.redeem::<Redemption>(
                signers,
                pm,
                redemption,
                amount,
                caller,
                key,
            )->Ok_0;
            let entry = EntryModel { token: token.address, from: caller, amount, salt: key };
            &&& token.redemption == Some(redemption.address)
            &&& signers.contains(caller) && pm.holds(caller, Role::Whitelisted) && pm.holds(
                redemption.address,
                Role::Whitelisted,
            )
            &&& 0 < amount <= token.balance(caller)
            &&& !token.used_keys.contains(key) && next.used_keys.contains(key)
            &&& next.well_formed()
            &&& next.total_supply() == token.total_supply()
            &&& caller != redemption.address ==> next.balance(caller) == token.balance(caller)
                - amount && next.balance(redemption.address) == token.balance(redemption.address)
                + amount
            &&& redemption.status_of(entry) == RedemptionStatus::Null
            &&& recorded.status_of(entry) == RedemptionStatus::Pending
            &&& events == seq![
                EventModel::Transfer {
                    contract: token.address,
                    from: caller,
                    to: redemption.address,
                    amount,
                },
                EventModel::RedemptionInitiated { contract: redemption.address, entry },
            ]
        }),
{
    token.ledger.lemma_moved(caller, redemption.address, amount);
    let (next, recorded, events) = token.redeem::<Redemption>(
        signers,
        pm,
        redemption,
        amount,
        caller,
        key,
    )->Ok_0;
    let entry = EntryModel { token: token.address, from: caller, amount, salt: key };
    assert(events =~= seq![
        EventModel::Transfer { contract: token.address, from: caller, to: redemption.address, amount },
        EventModel::RedemptionInitiated { contract: redemption.address, entry },
    ]);
}

/// The execution of one pending request against its token burns the amount
/// from the redemption contract's balance, lowers the supply by it, and
/// leaves the request executed.
pub proof fn law_execution_burns_the_held_amount(
    redemption: RedemptionModel,
    signers: Seq<Address>,
    pm: RegistryModel,
    token: TokenModel,
    caller: Address,
    entry: EntryModel,
)
    requires
        token.well_formed(),
        token.address == entry.token,
        redemption.execute_redemptions::<Token>(signers, pm, seq![token], caller, seq![entry]) is Ok,
    ensures
        ({
            let (next, ledgers, events) = redemption.execute_redemptions::<Token>(
                signers,
                pm,
                seq![token],
                caller,
                seq![entry],
            )->Ok_0;
            &&& signers.contains(caller) && pm.holds(caller, Role::RedemptionExecutor)
            &&& redemption.tokens.contains(entry.token)
            &&& redemption.status_of(entry) == RedemptionStatus::Pending
            &&& next.status_of(entry) == RedemptionStatus::Executed
            &&& ledgers.len() == 1
            &&& ledgers[0].total_supply() == token.total_supply() - entry.amount
            &&& ledgers[0].balance(redemption.address) == token.balance(redemption.address)
                - entry.amount
            &&& forall|a: Address|
                a != redemption.address ==> ledgers[0].balance(a) == token.balance(a)
            &&& events == seq![
                EventModel::Burn {
                    contract: token.address,
                    from: redemption.address,
                    amount: entry.amount,
                },
                EventModel::RedemptionExecuted { contract: redemption.address, entry },
            ]
        }),
{
    let tokens = seq![token];
    let entries = seq![entry];
    assert(entries.first() == entry);
    assert(entries.drop_first() =~= Seq::<EntryModel>::empty());
    assert(crate::redemption::resolves::<Token>(tokens, entry.token, 0));
    crate::redemption::lemma_resolves_unique::<Token>(tokens, entry.token, 0);
    token.ledger.lemma_burned(redemption.address, entry.amount);
    assert(redemption.batch_flaw(entries) is None);
    assert(redemption.entry_flaw(entry, RedemptionStatus::Pending) is None);
    assert(redemption.execute_all::<Token>(pm, tokens, Seq::empty(), entries) is Ok);
    assert(redemption.execute_one::<Token>(pm, tokens, entry) is Ok);
    let step = redemption.execute_one::<Token>(pm, tokens, entry)->Ok_0;
    let rest = entries.drop_first();
    assert(step.0.execute_all::<Token>(pm, step.1, Seq::empty() + step.2, rest) == Ok::<
        (RedemptionModel, Seq<TokenModel>, Seq<EventModel>),
        Error,
    >((step.0, step.1, Seq::empty() + step.2)));
    assert(Seq::<EventModel>::empty() + step.2 =~= step.2);
    assert(step.1 =~= seq![step.1[0]]);
    assert(step.2 =~= seq![
        EventModel::Burn { contract: token.address, from: redemption.address, amount: entry.amount },
        EventModel::RedemptionExecuted { contract: redemption.address, entry },
    ]);
}

/// A grant or a revocation that succeeds leaves the registry well formed.
pub proof fn law_registry_stays_well_formed(
    registry: RegistryModel,
    signers: Seq<Address>,
    caller: Address,
    account: Address,
    role: Role,
)
    requires
        registry.well_formed(),
    ensures
        registry.grant_role(signers, caller, account, role) matches Ok(next) ==> next.well_formed(),
        registry.revoke_role(signers, caller, account, role) matches Ok(next)
            ==> next.well_formed(),
        registry.renounce_role(signers, caller, role) matches Ok(next) ==> next.well_formed(),
{
    lemma_granted(registry.members_of(role), account);
    lemma_revoked(registry.members_of(role), account);
    lemma_revoked(registry.members_of(role), caller);
}

/// After a grant that succeeds the account holds the role; after a
/// revocation that then succeeds it holds the role no more.
pub proof fn law_grant_then_revoke(
    registry: RegistryModel,
    signers: Seq<Address>,
    caller: Address,
    account: Address,
    role: Role,
    later_signers: Seq<Address>,
    later_caller: Address,
)
    requires
        registry.well_formed(),
        registry.grant_role(signers, caller, account, role) is Ok,
    ensures
        ({
            let granted = registry.grant_role(signers, caller, account, role)->Ok_0;
            &&& granted.has_role(account, role) is Some
            &&& granted.revoke_role(later_signers, later_caller, account, role) matches Ok(revoked)
                ==> revoked.has_role(account, role) is None
        }),
{
    lemma_granted(registry.members_of(role), account);
    let granted = registry.grant_role(signers, caller, account, role)->Ok_0;
    lemma_revoked(granted.members_of(role), account);
}

/// A grant or a revocation under one role leaves the holders of every other
/// role as they were.
pub proof fn law_roles_are_independent(
    registry: RegistryModel,
    signers: Seq<Address>,
    caller: Address,
    account: Address,
    role: Role,
    other: Role,
)
    requires
        registry.well_formed(),
        other != role,
    ensures
        registry.grant_role(signers, caller, account, role) matches Ok(next) ==> next.members_of(
            other,
        ) == registry.members_of(other),
        registry.revoke_role(signers, caller, account, role) matches Ok(next) ==> next.members_of(
            other,
        ) == registry.members_of(other),
{
}

/// The Whitelisted role cannot be renounced: whoever calls, under whatever
/// authorization, is refused for reasons of policy.
pub proof fn law_whitelisted_cannot_be_renounced(
    registry: RegistryModel,
    signers: Seq<Address>,
    caller: Address,
)
    ensures
        registry.renounce_role(signers, caller, Role::Whitelisted) == Err::<RegistryModel, Error>(
            Error::ProtectedRole,
        ),
        Error::ProtectedRole.class() == ErrorKind::Policy,
{
}

/// Where the Whitelister role administers the Whitelisted role, as it does
/// from construction on, a Whitelister who authorizes the call can revoke
/// the Whitelisted role from a holder.
pub proof fn law_whitelister_can_revoke_whitelisted(
    registry: RegistryModel,
    signers: Seq<Address>,
    whitelister: Address,
    holder: Address,
)
    requires
        registry.well_formed(),
        registry.admin_of(Role::Whitelisted) == Some(Role::Whitelister),
        registry.holds(whitelister, Role::Whitelister),
        signers.contains(whitelister),
        registry.holds(holder, Role::Whitelisted),
    ensures
        registry.revoke_role(signers, whitelister, holder, Role::Whitelisted) matches Ok(next)
            && !next.holds(holder, Role::Whitelisted),
        RegistryModel::initial(registry.address, registry.admin).admin_of(Role::Whitelisted)
            == Some(Role::Whitelister),
{
    lemma_revoked(registry.members_of(Role::Whitelisted), holder);
}

/// A request that was recorded cannot be recorded again: the second call
/// with the same token, account, amount and salt fails, and where the token
/// authorized it, it fails because of the request's status.
pub proof fn law_request_is_recorded_once(
    redemption: RedemptionModel,
    signers: Seq<Address>,
    entry: EntryModel,
    later_signers: Seq<Address>,
)
    requires
        redemption.on_redeem(signers, entry) is Ok,
    ensures
        ({
            let recorded = redemption.on_redeem(signers, entry)->Ok_0.0;
            &&& recorded.status_of(entry) == RedemptionStatus::Pending
            &&& recorded.on_redeem(later_signers, entry) is Err
            &&& later_signers.contains(entry.token) ==> recorded.on_redeem(later_signers, entry)
                == Err::<(RedemptionModel, Seq<EventModel>), Error>(
                Error::StatusMismatch,
            )
        }),
        Error::StatusMismatch.class() == ErrorKind::State,
{
}

/// Two requests with different content addresses do not stand in each
/// other's way: recording the first changes nothing for the second.
pub proof fn law_distinct_requests_are_independent(
    redemption: RedemptionModel,
    signers: Seq<Address>,
    first: EntryModel,
    second_signers: Seq<Address>,
    second: EntryModel,
)
    requires
        entry_hash(first) != entry_hash(second),
        redemption.on_redeem(signers, first) is Ok,
        redemption.on_redeem(second_signers, second) is Ok,
    ensures
        redemption.on_redeem(signers, first)->Ok_0.0.on_redeem(second_signers, second) is Ok,
{
}

/// The status of a request moves only from null to pending when it is
/// recorded, and every other request keeps its status.
pub proof fn law_on_redeem_transition(
    redemption: RedemptionModel,
    signers: Seq<Address>,
    entry: EntryModel,
    hash: Seq<u8>,
)
    requires
        redemption.on_redeem(signers, entry) is Ok,
    ensures
        ({
            let next = redemption.on_redeem(signers, entry)->Ok_0.0;
            if hash == entry_hash(entry) {
                redemption.status(hash) == RedemptionStatus::Null && next.status(hash)
                    == RedemptionStatus::Pending
            } else {
                next.status(hash) == redemption.status(hash)
            }
        }),
{
}

/// An executed or cancelled request is final: it can be neither recorded
/// again, nor executed, nor cancelled.
pub proof fn law_terminal_status_is_final<T: TokenInterface>(
    redemption: RedemptionModel,
    signers: Seq<Address>,
    pm: RegistryModel,
    tokens: Seq<T::V>,
    token: T::V,
    caller: Address,
    entry: EntryModel,
)
    requires
        redemption.status_of(entry) == RedemptionStatus::Executed || redemption.status_of(entry)
            == RedemptionStatus::Canceled,
        T::address_of(token) == entry.token,
    ensures
        redemption.on_redeem(signers, entry) is Err,
        redemption.execute_one::<T>(pm, tokens, entry) is Err,
        redemption.execute_redemptions::<T>(signers, pm, tokens, caller, seq![entry]) is Err,
        redemption.cancel_redemption::<T>(
            signers,
            pm,
            token,
            caller,
            entry.from,
            entry.amount,
            entry.salt,
        ) is Err,
{
    let batch = seq![entry];
    assert(batch.first() == entry);
    assert(redemption.entry_flaw(entry, RedemptionStatus::Pending) is Some);
}

/// A cancellation moves the status of its request from pending to
/// cancelled, and every other request keeps its status.
pub proof fn law_cancel_transition<T: TokenInterface>(
    redemption: RedemptionModel,
    signers: Seq<Address>,
    pm: RegistryModel,
    token: T::V,
    caller: Address,
    from: Address,
    amount: i128,
    salt: Seq<char>,
    hash: Seq<u8>,
)
    requires
        redemption.cancel_redemption::<T>(signers, pm, token, caller, from, amount, salt) is Ok,
    ensures
        ({
            let next = redemption.cancel_redemption::<T>(
                signers,
                pm,
                token,
                caller,
                from,
                amount,
                salt,
            )->Ok_0.0;
            let entry = EntryModel { token: T::address_of(token), from, amount, salt };
            if hash == entry_hash(entry) {
                redemption.status(hash) == RedemptionStatus::Pending && next.status(hash)
                    == RedemptionStatus::Canceled
            } else {
                next.status(hash) == redemption.status(hash)
            }
        }),
{
}

/// Whatever a batch executes, the status of a request either stays as it
/// is or moves from pending to executed; and nothing but the statuses
/// changes in the redemption contract.
pub proof fn law_execute_transition<T: TokenInterface>(
    redemption: RedemptionModel,
    pm: RegistryModel,
    tokens: Seq<T::V>,
    done: Seq<EventModel>,
    entries: Seq<EntryModel>,
    hash: Seq<u8>,
)
    requires
        redemption.execute_all::<T>(pm, tokens, done, entries) is Ok,
    ensures
        ({
            let next = redemption.execute_all::<T>(pm, tokens, done, entries)->Ok_0.0;
            &&& next.status(hash) == redemption.status(hash) || (redemption.status(hash)
                == RedemptionStatus::Pending && next.status(hash) == RedemptionStatus::Executed)
            &&& next.tokens == redemption.tokens
            &&& next.owner == redemption.owner
            &&& next.address == redemption.address
            &&& next.permission_manager == redemption.permission_manager
        }),
    decreases entries.len(),
{
    if entries.len() > 0 {
        let step = redemption.execute_one::<T>(pm, tokens, entries.first())->Ok_0;
        law_execute_transition::<T>(step.0, pm, step.1, done + step.2, entries.drop_first(), hash);
    }
}

/// Every request of a batch that was executed is executed afterwards, and
/// the batch emitted one execution event for each of them.
pub proof fn law_executed_batch_is_executed<T: TokenInterface>(
    redemption: RedemptionModel,
    pm: RegistryModel,
    tokens: Seq<T::V>,
    done: Seq<EventModel>,
    entries: Seq<EntryModel>,
    i: int,
)
    requires
        redemption.execute_all::<T>(pm, tokens, done, entries) is Ok,
        0 <= i < entries.len(),
    ensures
        ({
            let outcome = redemption.execute_all::<T>(pm, tokens, done, entries)->Ok_0;
            &&& outcome.0.status_of(entries[i]) == RedemptionStatus::Executed
            &&& outcome.2.contains(
                EventModel::RedemptionExecuted {
                    contract: redemption.address,
                    entry: entries[i],
                },
            )
        }),
    decreases entries.len(),
{
    let step = redemption.execute_one::<T>(pm, tokens, entries.first())->Ok_0;
    let rest = entries.drop_first();
    let outcome = step.0.execute_all::<T>(pm, step.1, done + step.2, rest)->Ok_0;
    if i == 0 {
        law_execute_transition::<T>(
            step.0,
            pm,
            step.1,
            done + step.2,
            rest,
            entry_hash(entries[0]),
        );
        lemma_done_events_stay::<T>(step.0, pm, step.1, done + step.2, rest);
        let emitted = done + step.2;
        let event = EventModel::RedemptionExecuted {
            contract: redemption.address,
            entry: entries[0],
        };
        assert(emitted[emitted.len() - 1] == event);
        assert(outcome.2[emitted.len() - 1] == event);
    } else {
        assert(rest[i - 1] == entries[i]);
        law_executed_batch_is_executed::<T>(step.0, pm, step.1, done + step.2, rest, i - 1);
    }
}

/// The events that a batch had emitted before stay at the head of the
/// events it ends with.
pub proof fn lemma_done_events_stay<T: TokenInterface>(
    redemption: RedemptionModel,
    pm: RegistryModel,
    tokens: Seq<T::V>,
    done: Seq<EventModel>,
    entries: Seq<EntryModel>,
)
    requires
        redemption.execute_all::<T>(pm, tokens, done, entries) is Ok,
    ensures
        ({
            let events = redemption.execute_all::<T>(pm, tokens, done, entries)->Ok_0.2;
            &&& done.len() <= events.len()
            &&& forall|k: int| 0 <= k < done.len() ==> events[k] == done[k]
        }),
    decreases entries.len(),
{
    if entries.len() > 0 {
        let step = redemption.execute_one::<T>(pm, tokens, entries.first())->Ok_0;
        lemma_done_events_stay::<T>(step.0, pm, step.1, done + step.2, entries.drop_first());
    }
}

/// A batch with a flawed request has a flaw.
pub proof fn lemma_flawed_batch(redemption: RedemptionModel, entries: Seq<EntryModel>, i: int)
    requires
        0 <= i < entries.len(),
        redemption.entry_flaw(entries[i], RedemptionStatus::Pending) is Some,
    ensures
        redemption.batch_flaw(entries) is Some,
    decreases entries.len(),
{
    if i > 0 {
        assert(entries.drop_first()[i - 1] == entries[i]);
        lemma_flawed_batch(redemption, entries.drop_first(), i - 1);
    }
}

/// A batch that names a request which is not pending is refused as a
/// whole. (`Redemption::execute_redemptions` leaves the contract and every
/// token unchanged whenever it fails.)
pub proof fn law_batch_with_non_pending_request_fails<T: TokenInterface>(
    redemption: RedemptionModel,
    signers: Seq<Address>,
    pm: RegistryModel,
    tokens: Seq<T::V>,
    caller: Address,
    entries: Seq<EntryModel>,
    i: int,
)
    requires
        0 <= i < entries.len(),
        redemption.status_of(entries[i]) != RedemptionStatus::Pending,
    ensures
        redemption.execute_redemptions::<T>(signers, pm, tokens, caller, entries) is Err,
{
    lemma_flawed_batch(redemption, entries, i);
}

/// An idempotency key is consumed by the call that succeeds under it.
pub proof fn law_key_is_consumed(
    token: TokenModel,
    signers: Seq<Address>,
    pm: RegistryModel,
    redemption: RedemptionModel,
    mints: Seq<MintBatchOperation>,
    burns: Seq<BurnBatchOperation>,
    from: Address,
    to: Address,
    amount: i128,
    caller: Address,
    key: Seq<char>,
)
    ensures
        token.mint_batch(signers, pm, mints, caller, key) matches Ok(next)
            ==> next.0.used_keys.contains(key),
        token.burn_batch(signers, pm, burns, caller, key) matches Ok(next)
            ==> next.0.used_keys.contains(key),
        token.safe_transfer(signers, pm, from, to, amount, key) matches Ok(next)
            ==> next.0.used_keys.contains(key),
        token.redeem::<Redemption>(signers, pm, redemption, amount, caller, key) matches Ok(next)
            ==> next.0.used_keys.contains(key),
{
}

/// A key that was consumed stays consumed, whatever is asked of the token
/// next. (Only its expiry, which the host reports, frees it.)
pub proof fn law_key_stays_consumed(
    token: TokenModel,
    signers: Seq<Address>,
    pm: RegistryModel,
    redemption: RedemptionModel,
    mints: Seq<MintBatchOperation>,
    burns: Seq<BurnBatchOperation>,
    from: Address,
    to: Address,
    amount: i128,
    caller: Address,
    key: Seq<char>,
    used: Seq<char>,
)
    requires
        token.used_keys.contains(used),
    ensures
        token.mint(signers, pm, to, amount, caller) matches Ok(next) ==> next.0.used_keys.contains(
            used,
        ),
        token.burn(signers, pm, from, amount, caller) matches Ok(next) ==> next.0.used_keys.contains(
            used,
        ),
        token.transfer(signers, pm, from, to, amount) matches Ok(next)
            ==> next.0.used_keys.contains(used),
        token.mint_batch(signers, pm, mints, caller, key) matches Ok(next)
            ==> next.0.used_keys.contains(used),
        token.burn_batch(signers, pm, burns, caller, key) matches Ok(next)
            ==> next.0.used_keys.contains(used),
        token.safe_transfer(signers, pm, from, to, amount, key) matches Ok(next)
            ==> next.0.used_keys.contains(used),
        token.redeem::<Redemption>(signers, pm, redemption, amount, caller, key) matches Ok(next)
            ==> next.0.used_keys.contains(used),
        token.pause(signers, pm, caller) matches Ok(next) ==> next.used_keys.contains(used),
        token.unpause(signers, pm, caller) matches Ok(next) ==> next.used_keys.contains(used),
        token.set_permission_manager(signers, to) matches Ok(next) ==> next.used_keys.contains(used),
        token.set_redemption(signers, to) matches Ok(next) ==> next.used_keys.contains(used),
{
}

/// A call under a consumed key fails, whatever else it asks for; where
/// nothing else stands in its way, it fails because the key was used.
pub proof fn law_used_key_is_refused(
    token: TokenModel,
    signers: Seq<Address>,
    pm: RegistryModel,
    redemption: RedemptionModel,
    mints: Seq<MintBatchOperation>,
    burns: Seq<BurnBatchOperation>,
    from: Address,
    to: Address,
    amount: i128,
    caller: Address,
    key: Seq<char>,
)
    requires
        token.used_keys.contains(key),
    ensures
        token.mint_batch(signers, pm, mints, caller, key) is Err,
        token.burn_batch(signers, pm, burns, caller, key) is Err,
        token.safe_transfer(signers, pm, from, to, amount, key) is Err,
        token.redeem::<Redemption>(signers, pm, redemption, amount, caller, key) is Err,
        token.gate(signers, pm, caller, Role::Minter) is None ==> token.mint_batch(
            signers,
            pm,
            mints,
            caller,
            key,
        ) == Err::<(TokenModel, Seq<EventModel>), Error>(Error::KeyUsed),
        token.gate(signers, pm, caller, Role::Burner) is None ==> token.burn_batch(
            signers,
            pm,
            burns,
            caller,
            key,
        ) == Err::<(TokenModel, Seq<EventModel>), Error>(Error::KeyUsed),
        token.transfer_bar(pm, from, to) is None ==> token.safe_transfer(
            signers,
            pm,
            from,
            to,
            amount,
            key,
        ) == Err::<(TokenModel, Seq<EventModel>), Error>(Error::KeyUsed),
        Error::KeyUsed.class() == ErrorKind::State,
{
}

/// A mint batch that succeeded under a key bars every later mint batch
/// under that key, whatever its operations, caller and authorization.
pub proof fn law_mint_batch_key_reuse_fails(
    token: TokenModel,
    signers: Seq<Address>,
    pm: RegistryModel,
    ops: Seq<MintBatchOperation>,
    caller: Address,
    key: Seq<char>,
    later_signers: Seq<Address>,
    later_pm: RegistryModel,
    later_ops: Seq<MintBatchOperation>,
    later_caller: Address,
)
    requires
        token.mint_batch(signers, pm, ops, caller, key) is Ok,
    ensures
        token.mint_batch(signers, pm, ops, caller, key)->Ok_0.0.mint_batch(
            later_signers,
            later_pm,
            later_ops,
            later_caller,
            key,
        ) is Err,
{
}

/// Presenting the stored nonce succeeds and moves it up by one; presenting
/// the same nonce again fails.
pub proof fn law_nonce_is_consumed_once(nonces: NonceModel, user: Address)
    requires
        nonces.nonce(user) < u128::MAX,
    ensures
        ({
            let n = nonces.nonce(user);
            &&& nonces.consume(user, n) matches Ok(next) && next.nonce(user) == n + 1
                && next.consume(user, n) == Err::<NonceModel, Error>(Error::NonceMismatch)
        }),
        (NonceModel { owner: nonces.owner, nonces: Map::empty() }).nonce(user) == 0,
        Error::NonceMismatch.class() == ErrorKind::State,
{
}

/// Consuming the nonce of one account leaves the nonce of every other
/// account as it was.
pub proof fn law_nonces_are_independent(
    nonces: NonceModel,
    user: Address,
    nonce: u128,
    other: Address,
)
    requires
        other != user,
    ensures
        nonces.consume(user, nonce) matches Ok(next) ==> next.nonce(other) == nonces.nonce(other),
{
}

/// While the ledger is paused, every entry point that changes balances or
/// consumes a key is refused because of the pause.
pub proof fn law_paused_ledger_refuses(
    token: TokenModel,
    signers: Seq<Address>,
    pm: RegistryModel,
    redemption: RedemptionModel,
    mints: Seq<MintBatchOperation>,
    burns: Seq<BurnBatchOperation>,
    from: Address,
    to: Address,
    amount: i128,
    caller: Address,
    key: Seq<char>,
)
    requires
        token.paused,
    ensures
        token.mint(signers, pm, to, amount, caller) == Err::<
            (TokenModel, Seq<EventModel>),
            Error,
        >(Error::Paused),
        token.mint_batch(signers, pm, mints, caller, key) == Err::<
            (TokenModel, Seq<EventModel>),
            Error,
        >(Error::Paused),
        token.burn(signers, pm, from, amount, caller) == Err::<
            (TokenModel, Seq<EventModel>),
            Error,
        >(Error::Paused),
        token.burn_batch(signers, pm, burns, caller, key) == Err::<
            (TokenModel, Seq<EventModel>),
            Error,
        >(Error::Paused),
        token.transfer(signers, pm, from, to, amount) == Err::<
            (TokenModel, Seq<EventModel>),
            Error,
        >(Error::Paused),
        token.safe_transfer(signers, pm, from, to, amount, key) == Err::<
            (TokenModel, Seq<EventModel>),
            Error,
        >(Error::Paused),
        token.redeem::<Redemption>(signers, pm, redemption, amount, caller, key) is Err,
        Error::Paused.class() == ErrorKind::Paused,
{
}

} // verus!
