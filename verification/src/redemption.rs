use vstd::prelude::*;
use crate::address::Address;
use crate::authorization::Authorization;
use crate::digest::compute_redemption_hash;
use crate::digest::hashable;
use crate::digest::redemption_hash;
use crate::digest::RedemptionHash;
use crate::error::Error;
use crate::event::log;
use crate::event::EntryModel;
use crate::event::Event;
use crate::event::EventModel;
use crate::event::RedemptionEntry;
use crate::permission_manager::PermissionManagerInterface;
use crate::permission_manager::RegistryModel;
use crate::role::Role;
use crate::table::entries_map;
use crate::table::lemma_entries_map_dom;
use crate::table::Key;
use crate::table::Table;
use crate::token::TokenInterface;

verus! {

/// Where a redemption request stands. `Null` is the status of a request
/// that was never made; `Executed` and `Canceled` are final.
#[derive(Clone, Copy, Debug, PartialEq, Eq, Structural)]
pub enum RedemptionStatus {
    Null,
    Pending,
    Executed,
    Canceled,
}

/// One redemption to execute: the token, the redeeming account, the amount
/// and the salt of the request.
#[derive(Clone, Debug, PartialEq, Eq)]
pub struct ExecuteRedemptionOperation(pub Address, pub Address, pub i128, pub String);

impl View for ExecuteRedemptionOperation {
    type V = EntryModel;

    open spec fn view(&self) -> EntryModel {
        EntryModel { token: self.0, from: self.1, amount: self.2, salt: self.3@ }
    }
}

/// The requests that a list of operations names, in order.
pub open spec fn requests(ops: Seq<ExecuteRedemptionOperation>) -> Seq<EntryModel> {
    ops.map_values(|op: ExecuteRedemptionOperation| op@)
}

/// The states of a list of tokens, in order.
pub open spec fn token_models<T: TokenInterface>(tokens: Seq<T>) -> Seq<T::V> {
    tokens.map_values(|t: T| t@)
}

/// The content address of a request.
pub open spec fn entry_hash(entry: EntryModel) -> Seq<u8> {
    redemption_hash(entry.token, entry.from, entry.amount as int, entry.salt)
}

/// Whether a request is short enough to be hashed.
pub open spec fn entry_hashable(entry: EntryModel) -> bool {
    hashable(entry.token, entry.from, entry.amount as int, entry.salt)
}

/// `i` is the first place in `tokens` of a token with the given address.
pub open spec fn resolves<T: TokenInterface>(tokens: Seq<T::V>, address: Address, i: int) -> bool {
    &&& 0 <= i < tokens.len()
    &&& T::address_of(tokens[i]) == address
    &&& forall|j: int| 0 <= j < i ==> T::address_of(#[trigger] tokens[j]) != address
}

/// The place of the token that an address resolves to, if any.
pub open spec fn token_index<T: TokenInterface>(tokens: Seq<T::V>, address: Address) -> Option<
    int,
> {
    if exists|i: int| resolves::<T>(tokens, address, i) {
        Some(choose|i: int| resolves::<T>(tokens, address, i))
    } else {
        None
    }
}

/// An address resolves to one place at most.
pub proof fn lemma_resolves_unique<T: TokenInterface>(tokens: Seq<T::V>, address: Address, i: int)
    requires
        resolves::<T>(tokens, address, i),
    ensures
        token_index::<T>(tokens, address) == Some(i),
{
    let c = choose|c: int| resolves::<T>(tokens, address, c);
    if c < i {
        assert(T::address_of(tokens[c]) != address);
    }
    if i < c {
        assert(T::address_of(tokens[i]) != address);
    }
}

/// What a redemption contract holds.
pub struct RedemptionModel {
    pub address: Address,
    pub owner: Address,
    pub permission_manager: Option<Address>,
    pub tokens: Set<Address>,
    pub statuses: Map<Seq<u8>, RedemptionStatus>,
}

impl RedemptionModel {
    /// The contract right after its construction.
    pub open spec fn initial(address: Address, owner: Address) -> RedemptionModel {
        RedemptionModel {
            address,
            owner,
            permission_manager: None,
            tokens: Set::empty(),
            statuses: Map::empty(),
        }
    }

    /// The status recorded under a content address.
    pub open spec fn status(self, hash: Seq<u8>) -> RedemptionStatus {
        if self.statuses.dom().contains(hash) {
            self.statuses[hash]
        } else {
            RedemptionStatus::Null
        }
    }

    /// The status of a request.
    pub open spec fn status_of(self, entry: EntryModel) -> RedemptionStatus {
        self.status(entry_hash(entry))
    }

    /// The contract with the request in the given status.
    pub open spec fn marked(self, entry: EntryModel, status: RedemptionStatus) -> RedemptionModel {
        RedemptionModel { statuses: self.statuses.insert(entry_hash(entry), status), ..self }
    }

    /// Why the registry that was handed in cannot be consulted, if so: none
    /// is configured, or the configured one is another.
    pub open spec fn registry_error(self, pm: RegistryModel) -> Option<Error> {
        match self.permission_manager {
            None => Some(Error::PermissionManagerNotSet),
            Some(a) => if a == pm.address {
                None
            } else {
                Some(Error::UnknownContract)
            },
        }
    }

    /// Why `caller` may not execute or cancel, if so.
    pub open spec fn executor_bar(
        self,
        signers: Seq<Address>,
        pm: RegistryModel,
        caller: Address,
    ) -> Option<Error> {
        if !signers.contains(caller) {
            Some(Error::SignatureMissing)
        } else if self.registry_error(pm) is Some {
            self.registry_error(pm)
        } else if !pm.holds(caller, Role::RedemptionExecutor) {
            Some(Error::RoleMissing)
        } else {
            None
        }
    }

    /// Why a request cannot leave the status `expected`, if so: its token
    /// is not registered, it is too long to be hashed, or it is in another
    /// status.
    pub open spec fn entry_flaw(
        self,
        entry: EntryModel,
        expected: RedemptionStatus,
    ) -> Option<Error> {
        if !self.tokens.contains(entry.token) {
            Some(Error::TokenNotRegistered)
        } else if !entry_hashable(entry) {
            Some(Error::TextTooLong)
        } else if self.status_of(entry) != expected {
            Some(Error::StatusMismatch)
        } else {
            None
        }
    }

    /// The first flaw of a batch against the contract as it stands.
    pub open spec fn batch_flaw(self, entries: Seq<EntryModel>) -> Option<Error>
        decreases entries.len(),
    {
        if entries.len() == 0 {
            None
        } else if self.entry_flaw(entries.first(), RedemptionStatus::Pending) is Some {
            self.entry_flaw(entries.first(), RedemptionStatus::Pending)
        } else {
            self.batch_flaw(entries.drop_first())
        }
    }

    /// The outcome of registering `token`: the owner must have authorized
    /// the call.
    pub open spec fn add_token(self, signers: Seq<Address>, token: Address) -> Result<
        RedemptionModel,
        Error,
    > {
        if !signers.contains(self.owner) {
            Err(Error::SignatureMissing)
        } else {
            Ok(RedemptionModel { tokens: self.tokens.insert(token), ..self })
        }
    }

    /// The outcome of ending the registration of `token`: the owner must
    /// have authorized the call.
    pub open spec fn remove_token(self, signers: Seq<Address>, token: Address) -> Result<
        RedemptionModel,
        Error,
    > {
        if !signers.contains(self.owner) {
            Err(Error::SignatureMissing)
        } else {
            Ok(RedemptionModel { tokens: self.tokens.remove(token), ..self })
        }
    }

    /// The outcome of naming the registry: the owner must have authorized
    /// the call.
    pub open spec fn set_permission_manager(
        self,
        signers: Seq<Address>,
        manager: Address,
    ) -> Result<RedemptionModel, Error> {
        if !signers.contains(self.owner) {
            Err(Error::SignatureMissing)
        } else {
            Ok(RedemptionModel { permission_manager: Some(manager), ..self })
        }
    }

    /// A request enters the lifecycle: the token contract itself must have
    /// authorized the call and be registered, and the request must be new.
    pub open spec fn on_redeem(self, signers: Seq<Address>, entry: EntryModel) -> Result<
        (RedemptionModel, Seq<EventModel>),
        Error,
    > {
        if !signers.contains(entry.token) {
            Err(Error::SignatureMissing)
        } else if let Some(e) = self.entry_flaw(entry, RedemptionStatus::Null) {
            Err(e)
        } else {
            Ok(
                (
                    self.marked(entry, RedemptionStatus::Pending),
                    seq![EventModel::RedemptionInitiated { contract: self.address, entry }],
                ),
            )
        }
    }

    /// A pending request is cancelled: the held amount goes back to the
    /// redeeming account by a transfer of the token, which the contract
    /// authorizes with its own address.
    pub open spec fn cancel_redemption<T: TokenInterface>(
        self,
        signers: Seq<Address>,
        pm: RegistryModel,
        token: T::V,
        caller: Address,
        from: Address,
        amount: i128,
        salt: Seq<char>,
    ) -> Result<(RedemptionModel, T::V, Seq<EventModel>), Error> {
        let entry = EntryModel { token: T::address_of(token), from, amount, salt };
        if let Some(e) = self.executor_bar(signers, pm, caller) {
            Err(e)
        } else if let Some(e) = self.entry_flaw(entry, RedemptionStatus::Pending) {
            Err(e)
        } else {
            match T::transfer_result(token, seq![self.address], pm, self.address, from, amount) {
                Err(e) => Err(e),
                Ok((ledger, events)) => Ok(
                    (
                        self.marked(entry, RedemptionStatus::Canceled),
                        ledger,
                        events.push(
                            EventModel::RedemptionCancelled { contract: self.address, entry },
                        ),
                    ),
                ),
            }
        }
    }

    /// One request is executed: it must still be pending; its token burns
    /// the amount from the contract's own balance, on the contract's own
    /// authority.
    pub open spec fn execute_one<T: TokenInterface>(
        self,
        pm: RegistryModel,
        tokens: Seq<T::V>,
        entry: EntryModel,
    ) -> Result<(RedemptionModel, Seq<T::V>, Seq<EventModel>), Error> {
        if self.status_of(entry) != RedemptionStatus::Pending {
            Err(Error::StatusMismatch)
        } else {
            match token_index::<T>(tokens, entry.token) {
                None => Err(Error::UnknownContract),
                Some(i) => match T::burn_result(
                    tokens[i],
                    seq![self.address],
                    pm,
                    self.address,
                    entry.amount,
                    self.address,
                ) {
                    Err(e) => Err(e),
                    Ok((ledger, events)) => Ok(
                        (
                            self.marked(entry, RedemptionStatus::Executed),
                            tokens.update(i, ledger),
                            events.push(
                                EventModel::RedemptionExecuted { contract: self.address, entry },
                            ),
                        ),
                    ),
                },
            }
        }
    }

    /// The requests are executed in order, after `done` events; the first
    /// failure is the result.
    pub open spec fn execute_all<T: TokenInterface>(
        self,
        pm: RegistryModel,
        tokens: Seq<T::V>,
        done: Seq<EventModel>,
        entries: Seq<EntryModel>,
    ) -> Result<(RedemptionModel, Seq<T::V>, Seq<EventModel>), Error>
        decreases entries.len(),
    {
        if entries.len() == 0 {
            Ok((self, tokens, done))
        } else {
            match self.execute_one::<T>(pm, tokens, entries.first()) {
                Err(e) => Err(e),
                Ok((next, ledgers, events)) => next.execute_all::<T>(
                    pm,
                    ledgers,
                    done + events,
                    entries.drop_first(),
                ),
            }
        }
    }

    /// A batch of pending requests is executed, all of it or nothing: the
    /// caller is screened, every request is checked against the contract as
    /// it stands, and then the requests are executed in order.
    pub open spec fn execute_redemptions<T: TokenInterface>(
        self,
        signers: Seq<Address>,
        pm: RegistryModel,
        tokens: Seq<T::V>,
        caller: Address,
        entries: Seq<EntryModel>,
    ) -> Result<(RedemptionModel, Seq<T::V>, Seq<EventModel>), Error> {
        if let Some(e) = self.executor_bar(signers, pm, caller) {
            Err(e)
        } else if let Some(e) = self.batch_flaw(entries) {
            Err(e)
        } else {
            self.execute_all::<T>(pm, tokens, Seq::empty(), entries)
        }
    }
}

/// The accounts of a list, as a set.
pub open spec fn address_set(list: Seq<Address>) -> Set<Address> {
    Set::new(|a: Address| list.contains(a))
}

/// What is kept of a redemption contract between calls: the model's fields
/// as plain lists.
pub struct RedemptionSnapshot {
    pub address: Address,
    pub owner: Address,
    pub permission_manager: Option<Address>,
    pub tokens: Vec<Address>,
    pub statuses: Vec<(RedemptionHash, RedemptionStatus)>,
}

impl RedemptionSnapshot {
    /// The contract that the snapshot describes; where a content address
    /// is listed more than once, its last entry counts.
    pub open spec fn model(&self) -> RedemptionModel {
        RedemptionModel {
            address: self.address,
            owner: self.owner,
            permission_manager: self.permission_manager,
            tokens: address_set(self.tokens@),
            statuses: entries_map(self.statuses@),
        }
    }
}

/// The redemption contract: it records each request under its content
/// address and moves it from pending to executed or cancelled.
pub struct Redemption {
    address: Address,
    owner: Address,
    permission_manager: Option<Address>,
    tokens: Table<Address, bool>,
    statuses: Table<RedemptionHash, RedemptionStatus>,
}

impl View for Redemption {
    type V = RedemptionModel;

    closed spec fn view(&self) -> RedemptionModel {
        RedemptionModel {
            address: self.address,
            owner: self.owner,
            permission_manager: self.permission_manager,
            tokens: self.tokens@.dom(),
            statuses: self.statuses@,
        }
    }
}

/// Every token of the list is well formed.
pub open spec fn all_wf<T: TokenInterface>(tokens: Seq<T>) -> bool {
    forall|i: int| 0 <= i < tokens.len() ==> (#[trigger] tokens[i]).sound()
}

/// Independent copies of the tokens, in the same order.
pub fn fork_tokens<T: TokenInterface>(tokens: &Vec<T>) -> (copies: Vec<T>)
    requires
        all_wf(tokens@),
    ensures
        all_wf(copies@),
        token_models(copies@) == token_models(tokens@),
{
    let mut copies: Vec<T> = Vec::new();
    let mut i: usize = 0;
    while i < tokens.len()
        invariant
            i <= tokens@.len(),
            all_wf(tokens@),
            all_wf(copies@),
            copies@.len() == i,
            forall|j: int| 0 <= j < i ==> (#[trigger] copies@[j])@ == tokens@[j]@,
        decreases tokens@.len() - i,
    {
        let t = tokens[i].fork();
        copies.push(t);
        i += 1;
    }
    assert(token_models(copies@) =~= token_models(tokens@));
    copies
}

/// The place of the first token with the given address.
pub fn find_token<T: TokenInterface>(tokens: &Vec<T>, address: &Address) -> (r: Option<usize>)
    ensures
        match r {
            Some(k) => token_index::<T>(token_models(tokens@), *address) == Some(k as int) && k
                < tokens@.len(),
            None => token_index::<T>(token_models(tokens@), *address) is None,
        },
{
    let mut i: usize = 0;
    while i < tokens.len()
        invariant
            i <= tokens@.len(),
            forall|j: int|
                0 <= j < i ==> T::address_of(#[trigger] token_models(tokens@)[j]) != *address,
        decreases tokens@.len() - i,
    {
        if tokens[i].address() == *address {
            proof {
                assert(resolves::<T>(token_models(tokens@), *address, i as int));
                lemma_resolves_unique::<T>(token_models(tokens@), *address, i as int);
            }
            return Some(i);
        }
        i += 1;
    }
    None
}

impl Redemption {
    /// The representation invariant.
    pub closed spec fn wf(&self) -> bool {
        self.tokens.wf() && self.statuses.wf()
    }

    /// A redemption contract at `address` that belongs to `owner`: no token
    /// registered, no request recorded, no registry configured.
    pub fn new(address: Address, owner: Address) -> (r: Redemption)
        ensures
            r.wf(),
            r@ == RedemptionModel::initial(address, owner),
    {
        let r = Redemption {
            address,
            owner,
            permission_manager: None,
            tokens: Table::new(),
            statuses: Table::new(),
        };
        assert(r@.tokens =~= Set::<Address>::empty());
        r
    }

    /// The contract that a snapshot describes.
    pub fn restore(snapshot: RedemptionSnapshot) -> (r: Redemption)
        ensures
            r.wf(),
            r@ == snapshot.model(),
    {
        let RedemptionSnapshot { address, owner, permission_manager, tokens: list, statuses } =
            snapshot;
        let mut tokens: Table<Address, bool> = Table::new();
        let mut i: usize = 0;
        while i < list.len()
            invariant
                i <= list@.len(),
                tokens.wf(),
                tokens@.dom() =~= address_set(list@.take(i as int)),
            decreases list@.len() - i,
        {
            tokens.insert(list[i], true);
            proof {
                let before = list@.take(i as int);
                let after = list@.take(i + 1);
                assert(after =~= before.push(list@[i as int]));
                assert forall|a: Address| after.contains(a) <==> (before.contains(a) || a
                    == list@[i as int]) by {
                    if before.contains(a) {
                        let j = choose|j: int| 0 <= j < before.len() && before[j] == a;
                        assert(after[j] == a);
                    }
                    if a == list@[i as int] {
                        assert(after[i as int] == a);
                    }
                }
            }
            i += 1;
        }
        assert(list@.take(i as int) =~= list@);
        Redemption {
            address,
            owner,
            permission_manager,
            tokens,
            statuses: Table::from_entries(statuses),
        }
    }

    /// What is to be kept of the contract between calls.
    pub fn snapshot(&self) -> (s: RedemptionSnapshot)
        requires
            self.wf(),
        ensures
            s.model() == self@,
    {
        let entries = self.tokens.to_entries();
        let mut tokens: Vec<Address> = Vec::new();
        let mut i: usize = 0;
        while i < entries.len()
            invariant
                i <= entries@.len(),
                tokens@.len() == i,
                forall|j: int| 0 <= j < i ==> #[trigger] tokens@[j] == entries@[j].0,
            decreases entries@.len() - i,
        {
            tokens.push(entries[i].0);
            i += 1;
        }
        proof {
            assert forall|a: Address| tokens@.contains(a) <==> self.tokens@.dom().contains(a) by {
                lemma_entries_map_dom(entries@, a);
                if tokens@.contains(a) {
                    let j = choose|j: int| 0 <= j < tokens@.len() && tokens@[j] == a;
                    assert(entries@[j].0.id() == a);
                }
                if self.tokens@.dom().contains(a) {
                    let j = choose|j: int|
                        0 <= j < entries@.len() && #[trigger] entries@[j].0.id() == a;
                    assert(tokens@[j] == a);
                }
            }
            assert(address_set(tokens@) =~= self.tokens@.dom());
        }
        RedemptionSnapshot {
            address: self.address,
            owner: self.owner,
            permission_manager: self.permission_manager,
            tokens,
            statuses: self.statuses.to_entries(),
        }
    }

    pub fn address(&self) -> (a: Address)
        ensures
            a == self@.address,
    {
        self.address
    }

    pub fn get_owner(&self) -> (o: Option<Address>)
        ensures
            o == Some(self@.owner),
    {
        Some(self.owner)
    }

    /// Whether `token` is registered.
    pub fn is_registered(&self, token: &Address) -> (b: bool)
        requires
            self.wf(),
        ensures
            b == self@.tokens.contains(*token),
    {
        self.tokens.contains(token)
    }

    fn status_at(&self, hash: &RedemptionHash) -> (s: RedemptionStatus)
        requires
            self.wf(),
        ensures
            s == self@.status(hash@),
    {
        match self.statuses.get(hash) {
            Some(s) => s,
            None => RedemptionStatus::Null,
        }
    }

    /// The status of the request `(token, from, amount, salt)`; `None` for
    /// a request that is too long to be hashed.
    pub fn status_of(
        &self,
        token: Address,
        from: Address,
        amount: i128,
        salt: &String,
    ) -> (r: Option<RedemptionStatus>)
        requires
            self.wf(),
        ensures
            r == (if entry_hashable(EntryModel { token, from, amount, salt: salt@ }) {
                Some(self@.status_of(EntryModel { token, from, amount, salt: salt@ }))
            } else {
                None
            }),
    {
        match compute_redemption_hash(&token, &from, amount, salt) {
            Ok(h) => Some(self.status_at(&h)),
            Err(_) => None,
        }
    }

    fn check_registry<P: PermissionManagerInterface>(&self, pm: &P) -> (r: Option<Error>)
        ensures
            r == self@.registry_error(pm@),
    {
        match self.permission_manager {
            None => Some(Error::PermissionManagerNotSet),
            Some(a) => if a == pm.address() {
                None
            } else {
                Some(Error::UnknownContract)
            },
        }
    }

    fn check_executor<P: PermissionManagerInterface>(
        &self,
        auth: &Authorization,
        pm: &P,
        caller: &Address,
    ) -> (r: Option<Error>)
        requires
            pm.sound(),
        ensures
            r == self@.executor_bar(auth.signers@, pm@, *caller),
    {
        if !auth.authorizes(caller) {
            return Some(Error::SignatureMissing);
        }
        if let Some(e) = self.check_registry(pm) {
            return Some(e);
        }
        if pm.has_role(caller, Role::RedemptionExecutor).is_none() {
            return Some(Error::RoleMissing);
        }
        None
    }

    /// The content address of a request that can leave the status
    /// `expected`, or the request's flaw.
    fn inspect(
        &self,
        token: &Address,
        from: &Address,
        amount: i128,
        salt: &String,
        expected: RedemptionStatus,
    ) -> (r: Result<RedemptionHash, Error>)
        requires
            self.wf(),
        ensures
            match self@.entry_flaw(
                EntryModel { token: *token, from: *from, amount, salt: salt@ },
                expected,
            ) {
                None => r matches Ok(h) && h@ == entry_hash(
                    EntryModel { token: *token, from: *from, amount, salt: salt@ },
                ),
                Some(e) => r matches Err(x) && x == e,
            },
    {
        if !self.tokens.contains(token) {
            return Err(Error::TokenNotRegistered);
        }
        match compute_redemption_hash(token, from, amount, salt) {
            Err(e) => Err(e),
            Ok(h) => {
                if self.status_at(&h) != expected {
                    Err(Error::StatusMismatch)
                } else {
                    Ok(h)
                }
            },
        }
    }

    /// Registers `token`. Only the owner may.
    pub fn add_token(&mut self, auth: &Authorization, token: Address) -> (r: Result<(), Error>)
        requires
            old(self).wf(),
        ensures
            final(self).wf(),
            match old(self)@.add_token(auth.signers@, token) {
                Ok(next) => r == Ok::<(), Error>(()) && final(self)@ == next,
                Err(e) => r == Err::<(), Error>(e) && final(self)@ == old(self)@,
            },
    {
        if !auth.authorizes(&self.owner) {
            return Err(Error::SignatureMissing);
        }
        self.tokens.insert(token, true);
        assert(self@.tokens =~= old(self)@.tokens.insert(token));
        Ok(())
    }

    /// Ends the registration of `token`. Only the owner may.
    pub fn remove_token(&mut self, auth: &Authorization, token: Address) -> (r: Result<(), Error>)
        requires
            old(self).wf(),
        ensures
            final(self).wf(),
            match old(self)@.remove_token(auth.signers@, token) {
                Ok(next) => r == Ok::<(), Error>(()) && final(self)@ == next,
                Err(e) => r == Err::<(), Error>(e) && final(self)@ == old(self)@,
            },
    {
        if !auth.authorizes(&self.owner) {
            return Err(Error::SignatureMissing);
        }
        self.tokens.remove(&token);
        assert(self@.tokens =~= old(self)@.tokens.remove(token));
        Ok(())
    }

    /// Names the registry that the contract consults. Only the owner may.
    pub fn set_permission_manager(
        &mut self,
        auth: &Authorization,
        permission_manager: Address,
    ) -> (r: Result<(), Error>)
        requires
            old(self).wf(),
        ensures
            final(self).wf(),
            match old(self)@.set_permission_manager(auth.signers@, permission_manager) {
                Ok(next) => r == Ok::<(), Error>(()) && final(self)@ == next,
                Err(e) => r == Err::<(), Error>(e) && final(self)@ == old(self)@,
            },
    {
        if !auth.authorizes(&self.owner) {
            return Err(Error::SignatureMissing);
        }
        self.permission_manager = Some(permission_manager);
        Ok(())
    }

    /// Records a new request as pending. The token contract calls this
    /// right after it has moved the tokens to the redemption contract: it
    /// must have authorized the call, and it must be registered. A request
    /// that was recorded before, in whatever status, is refused.
    pub fn on_redeem(
        &mut self,
        auth: &Authorization,
        token: Address,
        from: Address,
        amount: i128,
        salt: &String,
    ) -> (r: Result<Vec<Event>, Error>)
        requires
            old(self).wf(),
        ensures
            final(self).wf(),
            match old(self)@.on_redeem(
                auth.signers@,
                EntryModel { token, from, amount, salt: salt@ },
            ) {
                Ok((next, events)) => r matches Ok(v) && log(v@) == events && final(self)@ == next,
                Err(e) => r == Err::<Vec<Event>, Error>(e) && final(self)@ == old(self)@,
            },
    {
        if !auth.authorizes(&token) {
            return Err(Error::SignatureMissing);
        }
        let hash = match self.inspect(&token, &from, amount, salt, RedemptionStatus::Null) {
            Ok(h) => h,
            Err(e) => {
                return Err(e);
            },
        };
        self.statuses.insert(hash, RedemptionStatus::Pending);
        let mut events = Vec::new();
        events.push(
            Event::RedemptionInitiated {
                contract: self.address,
                entry: RedemptionEntry(token, from, amount, salt.clone()),
            },
        );
        assert(log(events@) =~= seq![
            EventModel::RedemptionInitiated {
                contract: self.address,
                entry: EntryModel { token, from, amount, salt: salt@ },
            },
        ]);
        Ok(events)
    }

    /// Cancels the pending request `(token, from, amount, salt)`, where
    /// `token` is the contract handed in: the held amount goes back to
    /// `from` by a transfer of the token. The caller must hold
    /// RedemptionExecutor. A failure of the transfer fails the call and
    /// leaves the request pending.
    pub fn cancel_redemption<T: TokenInterface, P: PermissionManagerInterface>(
        &mut self,
        auth: &Authorization,
        pm: &P,
        token: &mut T,
        caller: Address,
        from: Address,
        amount: i128,
        salt: &String,
    ) -> (r: Result<Vec<Event>, Error>)
        requires
            old(self).wf(),
            old(token).sound(),
            pm.sound(),
        ensures
            final(self).wf(),
            final(token).sound(),
            match old(self)@.cancel_redemption::<T>(
                auth.signers@,
                pm@,
                old(token)@,
                caller,
                from,
                amount,
                salt@,
            ) {
                Ok((next, ledger, events)) => r matches Ok(v) && log(v@) == events && final(self)@
                    == next && final(token)@ == ledger,
                Err(e) => r == Err::<Vec<Event>, Error>(e) && final(self)@ == old(self)@
                    && final(token)@ == old(token)@,
            },
    {
        if let Some(e) = self.check_executor(auth, pm, &caller) {
            return Err(e);
        }
        let token_address = token.address();
        let hash = match self.inspect(&token_address, &from, amount, salt, RedemptionStatus::Pending) {
            Ok(h) => h,
            Err(e) => {
                return Err(e);
            },
        };
        let own = Authorization::of(self.address);
        let mut events = match token.transfer(&own, pm, self.address, from, amount) {
            Ok(v) => v,
            Err(e) => {
                return Err(e);
            },
        };
        self.statuses.insert(hash, RedemptionStatus::Canceled);
        let ghost earlier = events@;
        events.push(
            Event::RedemptionCancelled {
                contract: self.address,
                entry: RedemptionEntry(token_address, from, amount, salt.clone()),
            },
        );
        assert(log(events@) =~= log(earlier).push(
            EventModel::RedemptionCancelled {
                contract: self.address,
                entry: EntryModel { token: token_address, from, amount, salt: salt@ },
            },
        ));
        Ok(events)
    }

    /// Executes a batch of pending requests, all of it or nothing. The
    /// caller must hold RedemptionExecutor. `tokens` holds the token
    /// contracts that the requests' addresses resolve to. Every request is
    /// first checked against the contract as it stands; then, in order,
    /// each request's token burns the amount from the redemption
    /// contract's balance and the request becomes executed. On any failure
    /// neither the contract nor any token has changed.
    #[verifier::loop_isolation(false)]
    pub fn execute_redemptions<T: TokenInterface, P: PermissionManagerInterface>(
        &mut self,
        auth: &Authorization,
        pm: &P,
        tokens: &mut Vec<T>,
        caller: Address,
        operations: &Vec<ExecuteRedemptionOperation>,
    ) -> (r: Result<Vec<Event>, Error>)
        requires
            old(self).wf(),
            all_wf(old(tokens)@),
            pm.sound(),
        ensures
            final(self).wf(),
            all_wf(final(tokens)@),
            match old(self)@.execute_redemptions::<T>(
                auth.signers@,
                pm@,
                token_models(old(tokens)@),
                caller,
                requests(operations@),
            ) {
                Ok((next, ledgers, events)) => r matches Ok(v) && log(v@) == events && final(self)@
                    == next && token_models(final(tokens)@) == ledgers,
                Err(e) => r == Err::<Vec<Event>, Error>(e) && final(self)@ == old(self)@
                    && token_models(final(tokens)@) == token_models(old(tokens)@),
            },
    {
        if let Some(e) = self.check_executor(auth, pm, &caller) {
            return Err(e);
        }
        let ghost entries = requests(operations@);
        let mut hashes: Vec<RedemptionHash> = Vec::new();
        let mut i: usize = 0;
        assert(entries.skip(0) =~= entries);
        while i < operations.len()
            invariant
                i <= entries.len(),
                hashes@.len() == i,
                self@.batch_flaw(entries) == self@.batch_flaw(entries.skip(i as int)),
                forall|j: int| 0 <= j < i ==> (#[trigger] hashes@[j])@ == entry_hash(entries[j]),
            decreases entries.len() - i,
        {
            assert(entries.skip(i as int).drop_first() =~= entries.skip(i + 1));
            let op = &operations[i];
            match self.inspect(&op.0, &op.1, op.2, &op.3, RedemptionStatus::Pending) {
                Err(e) => {
                    return Err(e);
                },
                Ok(h) => {
                    hashes.push(h);
                },
            }
            i += 1;
        }
        let mut staged = self.statuses.fork();
        let mut ledgers = fork_tokens(tokens);
        let mut events: Vec<Event> = Vec::new();
        let own = Authorization::of(self.address);
        let mut i: usize = 0;
        assert(log(events@) =~= Seq::<EventModel>::empty());
        while i < operations.len()
            invariant
                i <= entries.len(),
                staged.wf(),
                all_wf(ledgers@),
                self@.execute_all::<T>(pm@, token_models(tokens@), Seq::empty(), entries) == (
                RedemptionModel { statuses: staged@, ..self@ }).execute_all::<T>(
                    pm@,
                    token_models(ledgers@),
                    log(events@),
                    entries.skip(i as int),
                ),
            decreases entries.len() - i,
        {
            assert(entries.skip(i as int).drop_first() =~= entries.skip(i + 1));
            let ghost before = RedemptionModel { statuses: staged@, ..self@ };
            let ghost models = token_models(ledgers@);
            let ghost earlier = events@;
            let op = &operations[i];
            let status = match staged.get(&hashes[i]) {
                Some(s) => s,
                None => RedemptionStatus::Null,
            };
            if status != RedemptionStatus::Pending {
                return Err(Error::StatusMismatch);
            }
            let k = match find_token(&ledgers, &op.0) {
                Some(k) => k,
                None => {
                    return Err(Error::UnknownContract);
                },
            };
            let mut burnt = match ledgers[k].burn(&own, pm, self.address, op.2, self.address) {
                Ok(v) => v,
                Err(e) => {
                    return Err(e);
                },
            };
            let ghost burnt_log = log(burnt@);
            staged.insert(hashes[i], RedemptionStatus::Executed);
            events.append(&mut burnt);
            events.push(
                Event::RedemptionExecuted {
                    contract: self.address,
                    entry: RedemptionEntry(op.0, op.1, op.2, op.3.clone()),
                },
            );
            proof {
                assert(token_models(ledgers@) =~= models.update(k as int, ledgers@[k as int]@));
                assert(log(events@) =~= log(earlier) + burnt_log.push(
                    EventModel::RedemptionExecuted { contract: self.address, entry: entries[i as int] },
                ));
            }
            i += 1;
        }
        self.statuses = staged;
        *tokens = ledgers;
        Ok(events)
    }
}

/// What a token contract asks of the redemption contract: to record a
/// request, and to say where it lives.
pub trait RedemptionInterface: View + Sized {
    /// The representation invariant of the implementation.
    spec fn sound(&self) -> bool;

    /// The address of a redemption contract in the given state.
    spec fn address_of(state: Self::V) -> Address;

    /// The outcome of recording a request in the given state.
    spec fn on_redeem_result(state: Self::V, signers: Seq<Address>, entry: EntryModel) -> Result<
        (Self::V, Seq<EventModel>),
        Error,
    >;

    fn address(&self) -> (a: Address)
        ensures
            a == Self::address_of(self@),
    ;

    /// Records the request `(token, from, amount, salt)`. A call that fails
    /// leaves the contract as it was.
    fn on_redeem(
        &mut self,
        auth: &Authorization,
        token: Address,
        from: Address,
        amount: i128,
        salt: &String,
    ) -> (r: Result<Vec<Event>, Error>)
        requires
            old(self).sound(),
        ensures
            final(self).sound(),
            match Self::on_redeem_result(
                old(self)@,
                auth.signers@,
                EntryModel { token, from, amount, salt: salt@ },
            ) {
                Ok((next, events)) => r matches Ok(v) && log(v@) == events && final(self)@ == next,
                Err(e) => r == Err::<Vec<Event>, Error>(e) && final(self)@ == old(self)@,
            },
    ;
}

impl RedemptionInterface for Redemption {
    open spec fn sound(&self) -> bool {
        self.wf()
    }

    open spec fn address_of(state: RedemptionModel) -> Address {
        state.address
    }

    open spec fn on_redeem_result(
        state: RedemptionModel,
        signers: Seq<Address>,
        entry: EntryModel,
    ) -> Result<(RedemptionModel, Seq<EventModel>), Error> {
        state.on_redeem(signers, entry)
    }

    fn address(&self) -> (a: Address) {
        Redemption::address(self)
    }

    fn on_redeem(
        &mut self,
        auth: &Authorization,
        token: Address,
        from: Address,
        amount: i128,
        salt: &String,
    ) -> (r: Result<Vec<Event>, Error>) {
        Redemption::on_redeem(self, auth, token, from, amount, salt)
    }
}

} // verus!
