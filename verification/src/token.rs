use vstd::prelude::*;
use crate::address::Address;
use crate::authorization::Authorization;
use crate::error::Error;
use crate::event::log;
use crate::event::EntryModel;
use crate::event::Event;
use crate::event::EventModel;
use crate::ledger::consistent;
use crate::ledger::Ledger;
use crate::ledger::LedgerModel;
use crate::permission_manager::PermissionManagerInterface;
use crate::permission_manager::RegistryModel;
use crate::redemption::RedemptionInterface;
use crate::role::Role;
use crate::table::entries_map;
use crate::table::lemma_entries_map_dom;
use crate::table::Key;
use crate::table::Table;

verus! {

/// One mint of a batch: the receiver and the amount.
#[derive(Clone, Copy, Debug, PartialEq, Eq, Structural)]
pub struct MintBatchOperation(pub Address, pub i128);

/// One burn of a batch: the holder and the amount.
#[derive(Clone, Copy, Debug, PartialEq, Eq, Structural)]
pub struct BurnBatchOperation(pub Address, pub i128);

/// What a token contract holds.
pub struct TokenModel {
    pub address: Address,
    pub owner: Address,
    pub name: Seq<char>,
    pub symbol: Seq<char>,
    pub decimals: u32,
    pub permission_manager: Option<Address>,
    pub redemption: Option<Address>,
    pub paused: bool,
    pub ledger: LedgerModel,
    pub used_keys: Set<Seq<char>>,
}

/// The first flaw of a mint batch: a receiver that is not whitelisted, or an
/// amount that is not positive.
pub open spec fn mint_batch_flaw(pm: RegistryModel, ops: Seq<MintBatchOperation>) -> Option<Error>
    decreases ops.len(),
{
    if ops.len() == 0 {
        None
    } else if !pm.holds(ops.first().0, Role::Whitelisted) {
        Some(Error::NotWhitelisted)
    } else if ops.first().1 <= 0 {
        Some(Error::NonPositiveAmount)
    } else {
        mint_batch_flaw(pm, ops.drop_first())
    }
}

/// The first flaw of a burn batch: an amount that is not positive.
pub open spec fn burn_batch_flaw(ops: Seq<BurnBatchOperation>) -> Option<Error>
    decreases ops.len(),
{
    if ops.len() == 0 {
        None
    } else if ops.first().1 <= 0 {
        Some(Error::NonPositiveAmount)
    } else {
        burn_batch_flaw(ops.drop_first())
    }
}

/// The ledger after the mints of `ops`, in order; the first failure is the
/// result.
pub open spec fn minted_all(ledger: LedgerModel, ops: Seq<MintBatchOperation>) -> Result<
    LedgerModel,
    Error,
>
    decreases ops.len(),
{
    if ops.len() == 0 {
        Ok(ledger)
    } else {
        match ledger.minted(ops.first().0, ops.first().1) {
            Ok(next) => minted_all(next, ops.drop_first()),
            Err(e) => Err(e),
        }
    }
}

/// The ledger after the burns of `ops`, in order; the first failure is the
/// result.
pub open spec fn burned_all(ledger: LedgerModel, ops: Seq<BurnBatchOperation>) -> Result<
    LedgerModel,
    Error,
>
    decreases ops.len(),
{
    if ops.len() == 0 {
        Ok(ledger)
    } else {
        match ledger.burned(ops.first().0, ops.first().1) {
            Ok(next) => burned_all(next, ops.drop_first()),
            Err(e) => Err(e),
        }
    }
}

/// One mint event per operation, in the order of the batch.
pub open spec fn mint_events(contract: Address, ops: Seq<MintBatchOperation>) -> Seq<EventModel> {
    Seq::new(ops.len(), |i: int| EventModel::Mint { contract, to: ops[i].0, amount: ops[i].1 })
}

/// One burn event per operation, in the order of the batch.
pub open spec fn burn_events(contract: Address, ops: Seq<BurnBatchOperation>) -> Seq<EventModel> {
    Seq::new(ops.len(), |i: int| EventModel::Burn { contract, from: ops[i].0, amount: ops[i].1 })
}

/// A mint batch without flaw has only whitelisted receivers and positive
/// amounts.
pub proof fn lemma_mint_batch_sound(pm: RegistryModel, ops: Seq<MintBatchOperation>)
    requires
        mint_batch_flaw(pm, ops) is None,
    ensures
        forall|i: int|
            0 <= i < ops.len() ==> pm.holds((#[trigger] ops[i]).0, Role::Whitelisted) && ops[i].1 > 0,
    decreases ops.len(),
{
    if ops.len() > 0 {
        lemma_mint_batch_sound(pm, ops.drop_first());
        assert forall|i: int| 0 <= i < ops.len() implies pm.holds(
            (#[trigger] ops[i]).0,
            Role::Whitelisted,
        ) && ops[i].1 > 0 by {
            if i > 0 {
                assert(ops[i] == ops.drop_first()[i - 1]);
            }
        }
    }
}

/// A burn batch without flaw has only positive amounts.
pub proof fn lemma_burn_batch_sound(ops: Seq<BurnBatchOperation>)
    requires
        burn_batch_flaw(ops) is None,
    ensures
        forall|i: int| 0 <= i < ops.len() ==> (#[trigger] ops[i]).1 > 0,
    decreases ops.len(),
{
    if ops.len() > 0 {
        lemma_burn_batch_sound(ops.drop_first());
        assert forall|i: int| 0 <= i < ops.len() implies (#[trigger] ops[i]).1 > 0 by {
            if i > 0 {
                assert(ops[i] == ops.drop_first()[i - 1]);
            }
        }
    }
}

impl TokenModel {
    /// The token right after its construction.
    pub open spec fn initial(
        address: Address,
        owner: Address,
        name: Seq<char>,
        symbol: Seq<char>,
        decimals: u32,
    ) -> TokenModel {
        TokenModel {
            address,
            owner,
            name,
            symbol,
            decimals,
            permission_manager: None,
            redemption: None,
            paused: false,
            ledger: LedgerModel::empty(),
            used_keys: Set::empty(),
        }
    }

    /// The ledger is well formed.
    pub open spec fn well_formed(self) -> bool {
        self.ledger.well_formed()
    }

    /// What `account` holds.
    pub open spec fn balance(self, account: Address) -> i128 {
        self.ledger.balance(account)
    }

    pub open spec fn total_supply(self) -> i128 {
        self.ledger.supply
    }

    /// Why the registry that was handed in cannot be consulted, if so: none
    /// is configured, or the configured one is another.
    pub open spec fn registry_error(self, pm: RegistryModel) -> Option<Error> {
        match self.permission_manager {
            None => Some(Error::PermissionManagerNotSet),
            Some(a) => if a == pm.address {
                None
            } else {
                Some(Error::UnknownContract)
            },
        }
    }

    /// Why `caller` may not act under `role`, if so: the ledger is paused,
    /// the caller did not authorize the call, the registry cannot be
    /// consulted, or the caller does not hold the role.
    pub open spec fn gate(
        self,
        signers: Seq<Address>,
        pm: RegistryModel,
        caller: Address,
        role: Role,
    ) -> Option<Error> {
        if self.paused {
            Some(Error::Paused)
        } else if !signers.contains(caller) {
            Some(Error::SignatureMissing)
        } else if self.registry_error(pm) is Some {
            self.registry_error(pm)
        } else if !pm.holds(caller, role) {
            Some(Error::RoleMissing)
        } else {
            None
        }
    }

    /// Why no transfer between `from` and `to` can start, if so: the ledger
    /// is paused, the registry cannot be consulted, or one of the two is not
    /// whitelisted.
    pub open spec fn transfer_bar(self, pm: RegistryModel, from: Address, to: Address) -> Option<
        Error,
    > {
        if self.paused {
            Some(Error::Paused)
        } else if self.registry_error(pm) is Some {
            self.registry_error(pm)
        } else if !pm.holds(from, Role::Whitelisted) || !pm.holds(to, Role::Whitelisted) {
            Some(Error::NotWhitelisted)
        } else {
            None
        }
    }

    /// The token with the given balances and supply.
    pub open spec fn with_ledger(self, ledger: LedgerModel) -> TokenModel {
        TokenModel { ledger, ..self }
    }

    /// The token after `key` was consumed.
    pub open spec fn with_key(self, key: Seq<char>) -> TokenModel {
        TokenModel { used_keys: self.used_keys.insert(key), ..self }
    }

    /// The outcome of naming the registry: the owner must have authorized
    /// the call.
    pub open spec fn set_permission_manager(
        self,
        signers: Seq<Address>,
        manager: Address,
    ) -> Result<TokenModel, Error> {
        if !signers.contains(self.owner) {
            Err(Error::SignatureMissing)
        } else {
            Ok(TokenModel { permission_manager: Some(manager), ..self })
        }
    }

    /// The outcome of naming the redemption contract: the owner must have
    /// authorized the call.
    pub open spec fn set_redemption(self, signers: Seq<Address>, redemption: Address) -> Result<
        TokenModel,
        Error,
    > {
        if !signers.contains(self.owner) {
            Err(Error::SignatureMissing)
        } else {
            Ok(TokenModel { redemption: Some(redemption), ..self })
        }
    }

    /// Why `caller` may not pause or resume, if so.
    pub open spec fn pauser_bar(
        self,
        signers: Seq<Address>,
        pm: RegistryModel,
        caller: Address,
    ) -> Option<Error> {
        if !signers.contains(caller) {
            Some(Error::SignatureMissing)
        } else if self.registry_error(pm) is Some {
            self.registry_error(pm)
        } else if !pm.holds(caller, Role::Pauser) {
            Some(Error::RoleMissing)
        } else {
            None
        }
    }

    /// The outcome of pausing: the caller must pass as a pauser, and the
    /// ledger must be running.
    pub open spec fn pause(
        self,
        signers: Seq<Address>,
        pm: RegistryModel,
        caller: Address,
    ) -> Result<TokenModel, Error> {
        if let Some(e) = self.pauser_bar(signers, pm, caller) {
            Err(e)
        } else if self.paused {
            Err(Error::Paused)
        } else {
            Ok(TokenModel { paused: true, ..self })
        }
    }

    /// The outcome of resuming: the caller must pass as a pauser, and the
    /// ledger must be paused.
    pub open spec fn unpause(
        self,
        signers: Seq<Address>,
        pm: RegistryModel,
        caller: Address,
    ) -> Result<TokenModel, Error> {
        if let Some(e) = self.pauser_bar(signers, pm, caller) {
            Err(e)
        } else if !self.paused {
            Err(Error::NotPaused)
        } else {
            Ok(TokenModel { paused: false, ..self })
        }
    }

    /// The outcome of a mint: the caller must pass as a minter, the
    /// receiver be whitelisted, the amount be positive, and the supply stay
    /// in range.
    pub open spec fn mint(
        self,
        signers: Seq<Address>,
        pm: RegistryModel,
        account: Address,
        amount: i128,
        caller: Address,
    ) -> Result<(TokenModel, Seq<EventModel>), Error> {
        if let Some(e) = self.gate(signers, pm, caller, Role::Minter) {
            Err(e)
        } else if !pm.holds(account, Role::Whitelisted) {
            Err(Error::NotWhitelisted)
        } else if amount <= 0 {
            Err(Error::NonPositiveAmount)
        } else {
            match self.ledger.minted(account, amount) {
                Ok(ledger) => Ok(
                    (
                        self.with_ledger(ledger),
                        seq![EventModel::Mint { contract: self.address, to: account, amount }],
                    ),
                ),
                Err(e) => Err(e),
            }
        }
    }

    /// The outcome of a mint batch: the caller must pass as a minter, the
    /// key be unused, the batch be neither empty nor flawed; then all mints
    /// happen in order, or none, and the key is consumed.
    pub open spec fn mint_batch(
        self,
        signers: Seq<Address>,
        pm: RegistryModel,
        ops: Seq<MintBatchOperation>,
        caller: Address,
        key: Seq<char>,
    ) -> Result<(TokenModel, Seq<EventModel>), Error> {
        if let Some(e) = self.gate(signers, pm, caller, Role::Minter) {
            Err(e)
        } else if self.used_keys.contains(key) {
            Err(Error::KeyUsed)
        } else if ops.len() == 0 {
            Err(Error::EmptyBatch)
        } else if let Some(e) = mint_batch_flaw(pm, ops) {
            Err(e)
        } else {
            match minted_all(self.ledger, ops) {
                Ok(ledger) => Ok(
                    (self.with_ledger(ledger).with_key(key), mint_events(self.address, ops)),
                ),
                Err(e) => Err(e),
            }
        }
    }

    /// The outcome of a burn: the caller must pass as a burner, and the
    /// amount be positive and covered by the balance.
    pub open spec fn burn(
        self,
        signers: Seq<Address>,
        pm: RegistryModel,
        account: Address,
        amount: i128,
        caller: Address,
    ) -> Result<(TokenModel, Seq<EventModel>), Error> {
        if let Some(e) = self.gate(signers, pm, caller, Role::Burner) {
            Err(e)
        } else if amount <= 0 {
            Err(Error::NonPositiveAmount)
        } else {
            match self.ledger.burned(account, amount) {
                Ok(ledger) => Ok(
                    (
                        self.with_ledger(ledger),
                        seq![EventModel::Burn { contract: self.address, from: account, amount }],
                    ),
                ),
                Err(e) => Err(e),
            }
        }
    }

    /// The outcome of a burn batch: the caller must pass as a burner, the
    /// key be unused, the batch be neither empty nor flawed; then all burns
    /// happen in order, or none, and the key is consumed.
    pub open spec fn burn_batch(
        self,
        signers: Seq<Address>,
        pm: RegistryModel,
        ops: Seq<BurnBatchOperation>,
        caller: Address,
        key: Seq<char>,
    ) -> Result<(TokenModel, Seq<EventModel>), Error> {
        if let Some(e) = self.gate(signers, pm, caller, Role::Burner) {
            Err(e)
        } else if self.used_keys.contains(key) {
            Err(Error::KeyUsed)
        } else if ops.len() == 0 {
            Err(Error::EmptyBatch)
        } else if let Some(e) = burn_batch_flaw(ops) {
            Err(e)
        } else {
            match burned_all(self.ledger, ops) {
                Ok(ledger) => Ok(
                    (self.with_ledger(ledger).with_key(key), burn_events(self.address, ops)),
                ),
                Err(e) => Err(e),
            }
        }
    }

    /// The part of a transfer that follows the whitelist checks: the amount
    /// must be positive, `from` must have authorized the call and hold the
    /// amount.
    pub open spec fn settle(
        self,
        signers: Seq<Address>,
        from: Address,
        to: Address,
        amount: i128,
    ) -> Result<(TokenModel, Seq<EventModel>), Error> {
        if amount <= 0 {
            Err(Error::NonPositiveAmount)
        } else if !signers.contains(from) {
            Err(Error::SignatureMissing)
        } else {
            match self.ledger.moved(from, to, amount) {
                Ok(ledger) => Ok(
                    (
                        self.with_ledger(ledger),
                        seq![EventModel::Transfer { contract: self.address, from, to, amount }],
                    ),
                ),
                Err(e) => Err(e),
            }
        }
    }

    /// The outcome of a transfer: nothing must bar it, and then it is
    /// settled.
    pub open spec fn transfer(
        self,
        signers: Seq<Address>,
        pm: RegistryModel,
        from: Address,
        to: Address,
        amount: i128,
    ) -> Result<(TokenModel, Seq<EventModel>), Error> {
        if let Some(e) = self.transfer_bar(pm, from, to) {
            Err(e)
        } else {
            self.settle(signers, from, to, amount)
        }
    }

    /// The holder hands `amount` to the configured redemption contract and
    /// the request is recorded there as pending, with the idempotency key
    /// as its salt; the token authorizes that call with its own address.
    pub open spec fn redeem<R: RedemptionInterface>(
        self,
        signers: Seq<Address>,
        pm: RegistryModel,
        redemption: R::V,
        amount: i128,
        caller: Address,
        key: Seq<char>,
    ) -> Result<(TokenModel, R::V, Seq<EventModel>), Error> {
        if self.paused {
            Err(Error::Paused)
        } else if amount <= 0 {
            Err(Error::NonPositiveAmount)
        } else if let Some(e) = self.registry_error(pm) {
            Err(e)
        } else if !pm.holds(caller, Role::Whitelisted) {
            Err(Error::NotWhitelisted)
        } else if self.used_keys.contains(key) {
            Err(Error::KeyUsed)
        } else {
            match self.redemption {
                None => Err(Error::RedemptionNotSet),
                Some(target) => if target != R::address_of(redemption) {
                    Err(Error::UnknownContract)
                } else if !pm.holds(target, Role::Whitelisted) {
                    Err(Error::NotWhitelisted)
                } else if !signers.contains(caller) {
                    Err(Error::SignatureMissing)
                } else {
                    match self.ledger.moved(caller, target, amount) {
                        Err(e) => Err(e),
                        Ok(ledger) => match R::on_redeem_result(
                            redemption,
                            seq![self.address],
                            EntryModel { token: self.address, from: caller, amount, salt: key },
                        ) {
                            Err(e) => Err(e),
                            Ok((recorded, events)) => Ok(
                                (
                                    self.with_ledger(ledger).with_key(key),
                                    recorded,
                                    seq![
                                        EventModel::Transfer {
                                            contract: self.address,
                                            from: caller,
                                            to: target,
                                            amount,
                                        },
                                    ] + events,
                                ),
                            ),
                        },
                    }
                },
            }
        }
    }

    /// The outcome of a transfer under an idempotency key: nothing must bar
    /// it, the key must be unused, and then it is settled and the key
    /// consumed.
    pub open spec fn safe_transfer(
        self,
        signers: Seq<Address>,
        pm: RegistryModel,
        from: Address,
        to: Address,
        amount: i128,
        key: Seq<char>,
    ) -> Result<(TokenModel, Seq<EventModel>), Error> {
        if let Some(e) = self.transfer_bar(pm, from, to) {
            Err(e)
        } else if self.used_keys.contains(key) {
            Err(Error::KeyUsed)
        } else {
            match self.settle(signers, from, to, amount) {
                Ok((next, events)) => Ok((next.with_key(key), events)),
                Err(e) => Err(e),
            }
        }
    }
}

/// The keys of a list, as a set.
pub open spec fn key_set(keys: Seq<String>) -> Set<Seq<char>> {
    Set::new(|k: Seq<char>| exists|i: int| 0 <= i < keys.len() && (#[trigger] keys[i])@ == k)
}

/// What is kept of a token between calls: the model's fields as plain
/// lists.
pub struct TokenSnapshot {
    pub address: Address,
    pub owner: Address,
    pub name: String,
    pub symbol: String,
    pub decimals: u32,
    pub permission_manager: Option<Address>,
    pub redemption: Option<Address>,
    pub paused: bool,
    pub total_supply: i128,
    pub holdings: Vec<(Address, i128)>,
    pub used_keys: Vec<String>,
}

impl TokenSnapshot {
    /// The token that the snapshot describes.
    pub open spec fn model(&self) -> TokenModel {
        TokenModel {
            address: self.address,
            owner: self.owner,
            name: self.name@,
            symbol: self.symbol@,
            decimals: self.decimals,
            permission_manager: self.permission_manager,
            redemption: self.redemption,
            paused: self.paused,
            ledger: LedgerModel {
                supply: self.total_supply,
                sheet: entries_map(self.holdings@),
            },
            used_keys: key_set(self.used_keys@),
        }
    }
}

/// A fungible token whose every change is gated by the role registry.
pub struct Token {
    address: Address,
    owner: Address,
    name: String,
    symbol: String,
    decimals: u32,
    permission_manager: Option<Address>,
    redemption: Option<Address>,
    paused: bool,
    ledger: Ledger,
    used_keys: Table<String, bool>,
}

impl View for Token {
    type V = TokenModel;

    closed spec fn view(&self) -> TokenModel {
        TokenModel {
            address: self.address,
            owner: self.owner,
            name: self.name@,
            symbol: self.symbol@,
            decimals: self.decimals,
            permission_manager: self.permission_manager,
            redemption: self.redemption,
            paused: self.paused,
            ledger: self.ledger@,
            used_keys: self.used_keys@.dom(),
        }
    }
}

impl Token {
    /// The representation invariant; it implies that the model is well
    /// formed.
    pub closed spec fn wf(&self) -> bool {
        self.ledger.wf() && self.used_keys.wf()
    }

    /// A token that meets its representation invariant has a well-formed
    /// model.
    pub proof fn lemma_wf(&self)
        requires
            self.wf(),
        ensures
            self@.well_formed(),
    {
        self.ledger.lemma_wf();
    }

    /// A token at `address` that belongs to `owner`: nothing minted, not
    /// paused, no collaborator configured.
    pub fn new(address: Address, owner: Address, name: String, symbol: String, decimals: u32) -> (t:
        Token)
        ensures
            t.wf(),
            t@ == TokenModel::initial(address, owner, name@, symbol@, decimals),
    {
        let t = Token {
            address,
            owner,
            name,
            symbol,
            decimals,
            permission_manager: None,
            redemption: None,
            paused: false,
            ledger: Ledger::new(),
            used_keys: Table::new(),
        };
        assert(t@.used_keys =~= Set::<Seq<char>>::empty());
        t
    }

    /// The token that a snapshot describes, if its supply and holdings are
    /// consistent: no account listed twice, no holding negative, and the
    /// holdings no more than the supply.
    pub fn restore(snapshot: TokenSnapshot) -> (r: Option<Token>)
        ensures
            match r {
                Some(t) => t.wf() && t@ == snapshot.model(),
                None => !consistent(snapshot.total_supply, snapshot.holdings@),
            },
    {
        let ledger = match Ledger::restore(snapshot.total_supply, &snapshot.holdings) {
            Some(l) => l,
            None => {
                return None;
            },
        };
        let mut used_keys: Table<String, bool> = Table::new();
        let mut i: usize = 0;
        while i < snapshot.used_keys.len()
            invariant
                i <= snapshot.used_keys@.len(),
                used_keys.wf(),
                used_keys@.dom() =~= key_set(snapshot.used_keys@.take(i as int)),
            decreases snapshot.used_keys@.len() - i,
        {
            used_keys.insert(snapshot.used_keys[i].clone(), true);
            proof {
                let keys = snapshot.used_keys@;
                let before = keys.take(i as int);
                let after = keys.take(i + 1);
                assert forall|k: Seq<char>| key_set(after).contains(k) <==> (key_set(
                    before,
                ).contains(k) || k == keys[i as int]@) by {
                    if key_set(before).contains(k) {
                        let j = choose|j: int| 0 <= j < before.len() && (#[trigger] before[j])@ == k;
                        assert(after[j]@ == k);
                    }
                    if k == keys[i as int]@ {
                        assert(after[i as int]@ == k);
                    }
                    if key_set(after).contains(k) {
                        let j = choose|j: int| 0 <= j < after.len() && (#[trigger] after[j])@ == k;
                        if j < i {
                            assert(before[j]@ == k);
                        }
                    }
                }
            }
            i += 1;
        }
        assert(snapshot.used_keys@.take(i as int) =~= snapshot.used_keys@);
        Some(
            Token {
                address: snapshot.address,
                owner: snapshot.owner,
                name: snapshot.name,
                symbol: snapshot.symbol,
                decimals: snapshot.decimals,
                permission_manager: snapshot.permission_manager,
                redemption: snapshot.redemption,
                paused: snapshot.paused,
                ledger,
                used_keys,
            },
        )
    }

    /// What is to be kept of the token between calls.
    pub fn snapshot(&self) -> (s: TokenSnapshot)
        requires
            self.wf(),
        ensures
            s.model() == self@,
            consistent(s.total_supply, s.holdings@),
    {
        let entries = self.used_keys.to_entries();
        let mut used_keys: Vec<String> = Vec::new();
        let mut i: usize = 0;
        while i < entries.len()
            invariant
                i <= entries@.len(),
                used_keys@.len() == i,
                forall|j: int| 0 <= j < i ==> (#[trigger] used_keys@[j])@ == entries@[j].0@,
            decreases entries@.len() - i,
        {
            used_keys.push(entries[i].0.clone());
            i += 1;
        }
        proof {
            assert forall|k: Seq<char>| key_set(used_keys@).contains(k)
                <==> self.used_keys@.dom().contains(k) by {
                lemma_entries_map_dom(entries@, k);
                if key_set(used_keys@).contains(k) {
                    let j = choose|j: int|
                        0 <= j < used_keys@.len() && (#[trigger] used_keys@[j])@ == k;
                    assert(entries@[j].0.id() == k);
                }
                if self.used_keys@.dom().contains(k) {
                    let j = choose|j: int|
                        0 <= j < entries@.len() && #[trigger] entries@[j].0.id() == k;
                    assert(used_keys@[j]@ == k);
                }
            }
            assert(key_set(used_keys@) =~= self.used_keys@.dom());
            self.ledger.lemma_wf();
        }
        let holdings = self.ledger.holdings();
        proof {
            assert forall|j: int| 0 <= j < holdings@.len() implies (#[trigger] holdings@[j]).1
                >= 0 by {
                crate::table::lemma_entries_map_value(holdings@, j);
            }
        }
        TokenSnapshot {
            address: self.address,
            owner: self.owner,
            name: self.name.clone(),
            symbol: self.symbol.clone(),
            decimals: self.decimals,
            permission_manager: self.permission_manager,
            redemption: self.redemption,
            paused: self.paused,
            total_supply: self.ledger.total_supply(),
            holdings,
            used_keys,
        }
    }

    /// An independent token with the same state.
    pub fn fork(&self) -> (t: Token)
        requires
            self.wf(),
        ensures
            t.wf(),
            t@ == self@,
    {
        Token {
            address: self.address,
            owner: self.owner,
            name: self.name.clone(),
            symbol: self.symbol.clone(),
            decimals: self.decimals,
            permission_manager: self.permission_manager,
            redemption: self.redemption,
            paused: self.paused,
            ledger: self.ledger.fork(),
            used_keys: self.used_keys.fork(),
        }
    }

    pub fn address(&self) -> (a: Address)
        ensures
            a == self@.address,
    {
        self.address
    }

    pub fn get_owner(&self) -> (o: Option<Address>)
        ensures
            o == Some(self@.owner),
    {
        Some(self.owner)
    }

    pub fn paused(&self) -> (p: bool)
        ensures
            p == self@.paused,
    {
        self.paused
    }

    pub fn total_supply(&self) -> (s: i128)
        ensures
            s == self@.total_supply(),
    {
        self.ledger.total_supply()
    }

    pub fn balance(&self, account: Address) -> (b: i128)
        requires
            self.wf(),
        ensures
            b == self@.balance(account),
    {
        self.ledger.balance(&account)
    }

    pub fn decimals(&self) -> (d: u32)
        ensures
            d == self@.decimals,
    {
        self.decimals
    }

    pub fn name(&self) -> (n: String)
        ensures
            n@ == self@.name,
    {
        self.name.clone()
    }

    pub fn symbol(&self) -> (s: String)
        ensures
            s@ == self@.symbol,
    {
        self.symbol.clone()
    }

    /// Whether `key` has been consumed.
    pub fn key_used(&self, key: &String) -> (b: bool)
        requires
            self.wf(),
        ensures
            b == self@.used_keys.contains(key@),
    {
        self.used_keys.contains(key)
    }

    /// Forgets that `key` was consumed. The host calls this when the key's
    /// time has run out; from then on the key can be used again.
    pub fn expire_key(&mut self, key: &String)
        requires
            old(self).wf(),
        ensures
            final(self).wf(),
            final(self)@ == (TokenModel {
                used_keys: old(self)@.used_keys.remove(key@),
                ..old(self)@
            }),
    {
        self.used_keys.remove(key);
        assert(self@.used_keys =~= old(self)@.used_keys.remove(key@));
    }

    fn consume_key(&mut self, key: &String)
        requires
            old(self).wf(),
        ensures
            final(self).wf(),
            final(self)@ == old(self)@.with_key(key@),
    {
        self.used_keys.insert(key.clone(), true);
        assert(self@.used_keys =~= old(self)@.used_keys.insert(key@));
    }

    fn check_registry<P: PermissionManagerInterface>(&self, pm: &P) -> (r: Option<Error>)
        ensures
            r == self@.registry_error(pm@),
    {
        match self.permission_manager {
            None => Some(Error::PermissionManagerNotSet),
            Some(a) => if a == pm.address() {
                None
            } else {
                Some(Error::UnknownContract)
            },
        }
    }

    fn check_gate<P: PermissionManagerInterface>(
        &self,
        auth: &Authorization,
        pm: &P,
        caller: &Address,
        role: Role,
    ) -> (r: Option<Error>)
        requires
            pm.sound(),
        ensures
            r == self@.gate(auth.signers@, pm@, *caller, role),
    {
        if self.paused {
            return Some(Error::Paused);
        }
        if !auth.authorizes(caller) {
            return Some(Error::SignatureMissing);
        }
        if let Some(e) = self.check_registry(pm) {
            return Some(e);
        }
        if pm.has_role(caller, role).is_none() {
            return Some(Error::RoleMissing);
        }
        None
    }

    fn check_transfer<P: PermissionManagerInterface>(
        &self,
        pm: &P,
        from: &Address,
        to: &Address,
    ) -> (r: Option<Error>)
        requires
            pm.sound(),
        ensures
            r == self@.transfer_bar(pm@, *from, *to),
    {
        if self.paused {
            return Some(Error::Paused);
        }
        if let Some(e) = self.check_registry(pm) {
            return Some(e);
        }
        if pm.has_role(from, Role::Whitelisted).is_none() {
            return Some(Error::NotWhitelisted);
        }
        if pm.has_role(to, Role::Whitelisted).is_none() {
            return Some(Error::NotWhitelisted);
        }
        None
    }

    fn check_pauser<P: PermissionManagerInterface>(
        &self,
        auth: &Authorization,
        pm: &P,
        caller: &Address,
    ) -> (r: Option<Error>)
        requires
            pm.sound(),
        ensures
            r == self@.pauser_bar(auth.signers@, pm@, *caller),
    {
        if !auth.authorizes(caller) {
            return Some(Error::SignatureMissing);
        }
        if let Some(e) = self.check_registry(pm) {
            return Some(e);
        }
        if pm.has_role(caller, Role::Pauser).is_none() {
            return Some(Error::RoleMissing);
        }
        None
    }

    fn do_settle(
        &mut self,
        auth: &Authorization,
        from: Address,
        to: Address,
        amount: i128,
    ) -> (r: Result<Vec<Event>, Error>)
        requires
            old(self).wf(),
        ensures
            final(self).wf(),
            match old(self)@.settle(auth.signers@, from, to, amount) {
                Ok((next, events)) => r matches Ok(v) && log(v@) == events && final(self)@ == next,
                Err(e) => r == Err::<Vec<Event>, Error>(e) && final(self)@ == old(self)@,
            },
    {
        if amount <= 0 {
            return Err(Error::NonPositiveAmount);
        }
        if !auth.authorizes(&from) {
            return Err(Error::SignatureMissing);
        }
        if let Err(e) = self.ledger.transfer(from, to, amount) {
            return Err(e);
        }
        let mut events = Vec::new();
        events.push(Event::Transfer { contract: self.address, from, to, amount });
        assert(log(events@) =~= seq![
            EventModel::Transfer { contract: self.address, from, to, amount },
        ]);
        Ok(events)
    }

    /// Names the registry that the token consults. Only the owner may.
    pub fn set_permission_manager(
        &mut self,
        auth: &Authorization,
        permission_manager: Address,
    ) -> (r: Result<(), Error>)
        requires
            old(self).wf(),
        ensures
            final(self).wf(),
            match old(self)@.set_permission_manager(auth.signers@, permission_manager) {
                Ok(next) => r == Ok::<(), Error>(()) && final(self)@ == next,
                Err(e) => r == Err::<(), Error>(e) && final(self)@ == old(self)@,
            },
    {
        if !auth.authorizes(&self.owner) {
            return Err(Error::SignatureMissing);
        }
        self.permission_manager = Some(permission_manager);
        Ok(())
    }

    /// Names the redemption contract that `redeem` hands tokens to. Only
    /// the owner may.
    pub fn set_redemption(&mut self, auth: &Authorization, redemption: Address) -> (r: Result<
        (),
        Error,
    >)
        requires
            old(self).wf(),
        ensures
            final(self).wf(),
            match old(self)@.set_redemption(auth.signers@, redemption) {
                Ok(next) => r == Ok::<(), Error>(()) && final(self)@ == next,
                Err(e) => r == Err::<(), Error>(e) && final(self)@ == old(self)@,
            },
    {
        if !auth.authorizes(&self.owner) {
            return Err(Error::SignatureMissing);
        }
        self.redemption = Some(redemption);
        Ok(())
    }

    /// Stops every state-changing entry point. The caller must hold Pauser.
    pub fn pause<P: PermissionManagerInterface>(
        &mut self,
        auth: &Authorization,
        pm: &P,
        caller: Address,
    ) -> (r: Result<(), Error>)
        requires
            old(self).wf(),
            pm.sound(),
        ensures
            final(self).wf(),
            match old(self)@.pause(auth.signers@, pm@, caller) {
                Ok(next) => r == Ok::<(), Error>(()) && final(self)@ == next,
                Err(e) => r == Err::<(), Error>(e) && final(self)@ == old(self)@,
            },
    {
        if let Some(e) = self.check_pauser(auth, pm, &caller) {
            return Err(e);
        }
        if self.paused {
            return Err(Error::Paused);
        }
        self.paused = true;
        Ok(())
    }

    /// Resumes a paused ledger. The caller must hold Pauser.
    pub fn unpause<P: PermissionManagerInterface>(
        &mut self,
        auth: &Authorization,
        pm: &P,
        caller: Address,
    ) -> (r: Result<(), Error>)
        requires
            old(self).wf(),
            pm.sound(),
        ensures
            final(self).wf(),
            match old(self)@.unpause(auth.signers@, pm@, caller) {
                Ok(next) => r == Ok::<(), Error>(()) && final(self)@ == next,
                Err(e) => r == Err::<(), Error>(e) && final(self)@ == old(self)@,
            },
    {
        if let Some(e) = self.check_pauser(auth, pm, &caller) {
            return Err(e);
        }
        if !self.paused {
            return Err(Error::NotPaused);
        }
        self.paused = false;
        Ok(())
    }

    /// Creates `amount` new units for `account`. The caller must hold
    /// Minter, the account Whitelisted, and the amount must be positive.
    pub fn mint<P: PermissionManagerInterface>(
        &mut self,
        auth: &Authorization,
        pm: &P,
        account: Address,
        amount: i128,
        caller: Address,
    ) -> (r: Result<Vec<Event>, Error>)
        requires
            old(self).wf(),
            pm.sound(),
        ensures
            final(self).wf(),
            match old(self)@.mint(auth.signers@, pm@, account, amount, caller) {
                Ok((next, events)) => r matches Ok(v) && log(v@) == events && final(self)@ == next,
                Err(e) => r == Err::<Vec<Event>, Error>(e) && final(self)@ == old(self)@,
            },
    {
        if let Some(e) = self.check_gate(auth, pm, &caller, Role::Minter) {
            return Err(e);
        }
        if pm.has_role(&account, Role::Whitelisted).is_none() {
            return Err(Error::NotWhitelisted);
        }
        if amount <= 0 {
            return Err(Error::NonPositiveAmount);
        }
        if let Err(e) = self.ledger.mint(account, amount) {
            return Err(e);
        }
        let mut events = Vec::new();
        events.push(Event::Mint { contract: self.address, to: account, amount });
        assert(log(events@) =~= seq![
            EventModel::Mint { contract: self.address, to: account, amount },
        ]);
        Ok(events)
    }

    /// Performs every mint of `operations`, in order, or none. The caller
    /// must hold Minter, the key must be unused and the batch not empty;
    /// every receiver must be whitelisted and every amount positive. The
    /// key is consumed with the batch.
    #[verifier::loop_isolation(false)]
    pub fn mint_batch<P: PermissionManagerInterface>(
        &mut self,
        auth: &Authorization,
        pm: &P,
        operations: &Vec<MintBatchOperation>,
        caller: Address,
        idempotency_key: &String,
    ) -> (r: Result<Vec<Event>, Error>)
        requires
            old(self).wf(),
            pm.sound(),
        ensures
            final(self).wf(),
            match old(self)@.mint_batch(auth.signers@, pm@, operations@, caller, idempotency_key@) {
                Ok((next, events)) => r matches Ok(v) && log(v@) == events && final(self)@ == next,
                Err(e) => r == Err::<Vec<Event>, Error>(e) && final(self)@ == old(self)@,
            },
    {
        if let Some(e) = self.check_gate(auth, pm, &caller, Role::Minter) {
            return Err(e);
        }
        if self.used_keys.contains(idempotency_key) {
            return Err(Error::KeyUsed);
        }
        if operations.len() == 0 {
            return Err(Error::EmptyBatch);
        }
        let ghost ops = operations@;
        let mut i: usize = 0;
        assert(ops.skip(0) =~= ops);
        while i < operations.len()
            invariant
                i <= ops.len(),
                ops == operations@,
                pm.sound(),
                mint_batch_flaw(pm@, ops) == mint_batch_flaw(pm@, ops.skip(i as int)),
            decreases ops.len() - i,
        {
            assert(ops.skip(i as int).drop_first() =~= ops.skip(i + 1));
            if pm.has_role(&operations[i].0, Role::Whitelisted).is_none() {
                return Err(Error::NotWhitelisted);
            }
            if operations[i].1 <= 0 {
                return Err(Error::NonPositiveAmount);
            }
            i += 1;
        }
        proof {
            lemma_mint_batch_sound(pm@, ops);
        }
        let mut staged = self.ledger.fork();
        let mut events: Vec<Event> = Vec::new();
        let mut i: usize = 0;
        while i < operations.len()
            invariant
                i <= ops.len(),
                ops == operations@,
                staged.wf(),
                self.wf(),
                self@ == old(self)@,
                forall|j: int| 0 <= j < ops.len() ==> (#[trigger] ops[j]).1 > 0,
                minted_all(self@.ledger, ops) == minted_all(staged@, ops.skip(i as int)),
                log(events@) == mint_events(self@.address, ops).take(i as int),
            decreases ops.len() - i,
        {
            assert(ops.skip(i as int).drop_first() =~= ops.skip(i + 1));
            let op = operations[i];
            if let Err(e) = staged.mint(op.0, op.1) {
                return Err(e);
            }
            let ghost earlier = events@;
            events.push(Event::Mint { contract: self.address, to: op.0, amount: op.1 });
            assert(log(events@) =~= log(earlier).push(mint_events(self@.address, ops)[i as int]));
            assert(mint_events(self@.address, ops).take(i + 1) =~= mint_events(
                self@.address,
                ops,
            ).take(i as int).push(mint_events(self@.address, ops)[i as int]));
            i += 1;
        }
        assert(mint_events(self@.address, ops).take(i as int) =~= mint_events(self@.address, ops));
        self.ledger = staged;
        self.consume_key(idempotency_key);
        Ok(events)
    }

    /// Destroys `amount` units of `account`. The caller must hold Burner,
    /// and the amount must be positive and covered by the balance.
    pub fn burn<P: PermissionManagerInterface>(
        &mut self,
        auth: &Authorization,
        pm: &P,
        account: Address,
        amount: i128,
        caller: Address,
    ) -> (r: Result<Vec<Event>, Error>)
        requires
            old(self).wf(),
            pm.sound(),
        ensures
            final(self).wf(),
            match old(self)@.burn(auth.signers@, pm@, account, amount, caller) {
                Ok((next, events)) => r matches Ok(v) && log(v@) == events && final(self)@ == next,
                Err(e) => r == Err::<Vec<Event>, Error>(e) && final(self)@ == old(self)@,
            },
    {
        if let Some(e) = self.check_gate(auth, pm, &caller, Role::Burner) {
            return Err(e);
        }
        if amount <= 0 {
            return Err(Error::NonPositiveAmount);
        }
        if let Err(e) = self.ledger.burn(account, amount) {
            return Err(e);
        }
        let mut events = Vec::new();
        events.push(Event::Burn { contract: self.address, from: account, amount });
        assert(log(events@) =~= seq![
            EventModel::Burn { contract: self.address, from: account, amount },
        ]);
        Ok(events)
    }

    /// Performs every burn of `operations`, in order, or none. The caller
    /// must hold Burner, the key must be unused and the batch not empty;
    /// every amount must be positive. The key is consumed with the batch.
    #[verifier::loop_isolation(false)]
    pub fn burn_batch<P: PermissionManagerInterface>(
        &mut self,
        auth: &Authorization,
        pm: &P,
        operations: &Vec<BurnBatchOperation>,
        caller: Address,
        idempotency_key: &String,
    ) -> (r: Result<Vec<Event>, Error>)
        requires
            old(self).wf(),
            pm.sound(),
        ensures
            final(self).wf(),
            match old(self)@.burn_batch(auth.signers@, pm@, operations@, caller, idempotency_key@) {
                Ok((next, events)) => r matches Ok(v) && log(v@) == events && final(self)@ == next,
                Err(e) => r == Err::<Vec<Event>, Error>(e) && final(self)@ == old(self)@,
            },
    {
        if let Some(e) = self.check_gate(auth, pm, &caller, Role::Burner) {
            return Err(e);
        }
        if self.used_keys.contains(idempotency_key) {
            return Err(Error::KeyUsed);
        }
        if operations.len() == 0 {
            return Err(Error::EmptyBatch);
        }
        let ghost ops = operations@;
        let mut i: usize = 0;
        assert(ops.skip(0) =~= ops);
        while i < operations.len()
            invariant
                i <= ops.len(),
                ops == operations@,
                burn_batch_flaw(ops) == burn_batch_flaw(ops.skip(i as int)),
            decreases ops.len() - i,
        {
            assert(ops.skip(i as int).drop_first() =~= ops.skip(i + 1));
            if operations[i].1 <= 0 {
                return Err(Error::NonPositiveAmount);
            }
            i += 1;
        }
        proof {
            lemma_burn_batch_sound(ops);
        }
        let mut staged = self.ledger.fork();
        let mut events: Vec<Event> = Vec::new();
        let mut i: usize = 0;
        while i < operations.len()
            invariant
                i <= ops.len(),
                ops == operations@,
                staged.wf(),
                self.wf(),
                self@ == old(self)@,
                forall|j: int| 0 <= j < ops.len() ==> (#[trigger] ops[j]).1 > 0,
                burned_all(self@.ledger, ops) == burned_all(staged@, ops.skip(i as int)),
                log(events@) == burn_events(self@.address, ops).take(i as int),
            decreases ops.len() - i,
        {
            assert(ops.skip(i as int).drop_first() =~= ops.skip(i + 1));
            let op = operations[i];
            if let Err(e) = staged.burn(op.0, op.1) {
                return Err(e);
            }
            let ghost earlier = events@;
            events.push(Event::Burn { contract: self.address, from: op.0, amount: op.1 });
            assert(log(events@) =~= log(earlier).push(burn_events(self@.address, ops)[i as int]));
            assert(burn_events(self@.address, ops).take(i + 1) =~= burn_events(
                self@.address,
                ops,
            ).take(i as int).push(burn_events(self@.address, ops)[i as int]));
            i += 1;
        }
        assert(burn_events(self@.address, ops).take(i as int) =~= burn_events(self@.address, ops));
        self.ledger = staged;
        self.consume_key(idempotency_key);
        Ok(events)
    }

    /// Moves `amount` units from `from` to `to`. Both must be whitelisted,
    /// the amount positive and covered, and `from` must have authorized the
    /// call.
    pub fn transfer<P: PermissionManagerInterface>(
        &mut self,
        auth: &Authorization,
        pm: &P,
        from: Address,
        to: Address,
        amount: i128,
    ) -> (r: Result<Vec<Event>, Error>)
        requires
            old(self).wf(),
            pm.sound(),
        ensures
            final(self).wf(),
            match old(self)@.transfer(auth.signers@, pm@, from, to, amount) {
                Ok((next, events)) => r matches Ok(v) && log(v@) == events && final(self)@ == next,
                Err(e) => r == Err::<Vec<Event>, Error>(e) && final(self)@ == old(self)@,
            },
    {
        if let Some(e) = self.check_transfer(pm, &from, &to) {
            return Err(e);
        }
        self.do_settle(auth, from, to, amount)
    }

    /// A transfer that happens at most once per idempotency key: the key
    /// must be unused and is consumed with the transfer.
    pub fn safe_transfer<P: PermissionManagerInterface>(
        &mut self,
        auth: &Authorization,
        pm: &P,
        from: Address,
        to: Address,
        amount: i128,
        idempotency_key: &String,
    ) -> (r: Result<Vec<Event>, Error>)
        requires
            old(self).wf(),
            pm.sound(),
        ensures
            final(self).wf(),
            match old(self)@.safe_transfer(auth.signers@, pm@, from, to, amount, idempotency_key@) {
                Ok((next, events)) => r matches Ok(v) && log(v@) == events && final(self)@ == next,
                Err(e) => r == Err::<Vec<Event>, Error>(e) && final(self)@ == old(self)@,
            },
    {
        if let Some(e) = self.check_transfer(pm, &from, &to) {
            return Err(e);
        }
        if self.used_keys.contains(idempotency_key) {
            return Err(Error::KeyUsed);
        }
        match self.do_settle(auth, from, to, amount) {
            Ok(events) => {
                self.consume_key(idempotency_key);
                Ok(events)
            },
            Err(e) => Err(e),
        }
    }
}

impl Token {
    /// Hands `amount` units of `caller` to the configured redemption
    /// contract and has the request recorded there as pending, under the
    /// idempotency key as salt. The caller must have authorized the call
    /// and be whitelisted, as must the redemption contract; the key must be
    /// unused and is consumed. `redemption` is the contract that the
    /// configured address resolves to. On any failure, that of the
    /// redemption contract included, nothing has changed.
    pub fn redeem<R: RedemptionInterface, P: PermissionManagerInterface>(
        &mut self,
        auth: &Authorization,
        pm: &P,
        redemption: &mut R,
        amount: i128,
        caller: Address,
        idempotency_key: &String,
    ) -> (r: Result<Vec<Event>, Error>)
        requires
            old(self).wf(),
            old(redemption).sound(),
            pm.sound(),
        ensures
            final(self).wf(),
            final(redemption).sound(),
            match old(self)@.redeem::<R>(
                auth.signers@,
                pm@,
                old(redemption)@,
                amount,
                caller,
                idempotency_key@,
            ) {
                Ok((next, recorded, events)) => r matches Ok(v) && log(v@) == events && final(self)@
                    == next && final(redemption)@ == recorded,
                Err(e) => r == Err::<Vec<Event>, Error>(e) && final(self)@ == old(self)@
                    && final(redemption)@ == old(redemption)@,
            },
    {
        if self.paused {
            return Err(Error::Paused);
        }
        if amount <= 0 {
            return Err(Error::NonPositiveAmount);
        }
        if let Some(e) = self.check_registry(pm) {
            return Err(e);
        }
        if pm.has_role(&caller, Role::Whitelisted).is_none() {
            return Err(Error::NotWhitelisted);
        }
        if self.used_keys.contains(idempotency_key) {
            return Err(Error::KeyUsed);
        }
        let target = match self.redemption {
            Some(a) => a,
            None => {
                return Err(Error::RedemptionNotSet);
            },
        };
        if target != redemption.address() {
            return Err(Error::UnknownContract);
        }
        if pm.has_role(&target, Role::Whitelisted).is_none() {
            return Err(Error::NotWhitelisted);
        }
        if !auth.authorizes(&caller) {
            return Err(Error::SignatureMissing);
        }
        if self.ledger.balance(&caller) < amount {
            return Err(Error::InsufficientBalance);
        }
        let own = Authorization::of(self.address);
        let mut recorded = match redemption.on_redeem(&own, self.address, caller, amount, idempotency_key) {
            Ok(v) => v,
            Err(e) => {
                return Err(e);
            },
        };
        let moved = self.ledger.transfer(caller, target, amount);
        assert(moved is Ok);
        self.consume_key(idempotency_key);
        let mut events = Vec::new();
        events.push(Event::Transfer { contract: self.address, from: caller, to: target, amount });
        let ghost first = log(events@);
        let ghost rest = log(recorded@);
        events.append(&mut recorded);
        assert(log(events@) =~= first + rest);
        assert(first =~= seq![
            EventModel::Transfer { contract: self.address, from: caller, to: target, amount },
        ]);
        Ok(events)
    }
}

/// What the redemption contract asks of a token contract: to burn from an
/// account, to transfer between accounts, to say where it lives, and to
/// make an independent copy of itself, on which a batch can be tried before
/// it is committed.
pub trait TokenInterface: View + Sized {
    /// The representation invariant of the implementation.
    spec fn sound(&self) -> bool;

    /// The address of a token in the given state.
    spec fn address_of(state: Self::V) -> Address;

    /// The outcome of a burn in the given state.
    spec fn burn_result(
        state: Self::V,
        signers: Seq<Address>,
        pm: RegistryModel,
        account: Address,
        amount: i128,
        caller: Address,
    ) -> Result<(Self::V, Seq<EventModel>), Error>;

    /// The outcome of a transfer in the given state.
    spec fn transfer_result(
        state: Self::V,
        signers: Seq<Address>,
        pm: RegistryModel,
        from: Address,
        to: Address,
        amount: i128,
    ) -> Result<(Self::V, Seq<EventModel>), Error>;

    fn address(&self) -> (a: Address)
        ensures
            a == Self::address_of(self@),
    ;

    /// Burns `amount` from `account` on behalf of `caller`. A call that
    /// fails leaves the token as it was.
    fn burn<P: PermissionManagerInterface>(
        &mut self,
        auth: &Authorization,
        pm: &P,
        account: Address,
        amount: i128,
        caller: Address,
    ) -> (r: Result<Vec<Event>, Error>)
        requires
            old(self).sound(),
            pm.sound(),
        ensures
            final(self).sound(),
            match Self::burn_result(old(self)@, auth.signers@, pm@, account, amount, caller) {
                Ok((next, events)) => r matches Ok(v) && log(v@) == events && final(self)@ == next,
                Err(e) => r == Err::<Vec<Event>, Error>(e) && final(self)@ == old(self)@,
            },
    ;

    /// Moves `amount` from `from` to `to`. A call that fails leaves the
    /// token as it was.
    fn transfer<P: PermissionManagerInterface>(
        &mut self,
        auth: &Authorization,
        pm: &P,
        from: Address,
        to: Address,
        amount: i128,
    ) -> (r: Result<Vec<Event>, Error>)
        requires
            old(self).sound(),
            pm.sound(),
        ensures
            final(self).sound(),
            match Self::transfer_result(old(self)@, auth.signers@, pm@, from, to, amount) {
                Ok((next, events)) => r matches Ok(v) && log(v@) == events && final(self)@ == next,
                Err(e) => r == Err::<Vec<Event>, Error>(e) && final(self)@ == old(self)@,
            },
    ;

    /// An independent token in the same state.
    fn fork(&self) -> (t: Self)
        requires
            self.sound(),
        ensures
            t.sound(),
            t@ == self@,
    ;
}

impl TokenInterface for Token {
    open spec fn sound(&self) -> bool {
        self.wf()
    }

    open spec fn address_of(state: TokenModel) -> Address {
        state.address
    }

    open spec fn burn_result(
        state: TokenModel,
        signers: Seq<Address>,
        pm: RegistryModel,
        account: Address,
        amount: i128,
        caller: Address,
    ) -> Result<(TokenModel, Seq<EventModel>), Error> {
        state.burn(signers, pm, account, amount, caller)
    }

    open spec fn transfer_result(
        state: TokenModel,
        signers: Seq<Address>,
        pm: RegistryModel,
        from: Address,
        to: Address,
        amount: i128,
    ) -> Result<(TokenModel, Seq<EventModel>), Error> {
        state.transfer(signers, pm, from, to, amount)
    }

    fn address(&self) -> (a: Address) {
        Token::address(self)
    }

    fn burn<P: PermissionManagerInterface>(
        &mut self,
        auth: &Authorization,
        pm: &P,
        account: Address,
        amount: i128,
        caller: Address,
    ) -> (r: Result<Vec<Event>, Error>) {
        Token::burn(self, auth, pm, account, amount, caller)
    }

    fn transfer<P: PermissionManagerInterface>(
        &mut self,
        auth: &Authorization,
        pm: &P,
        from: Address,
        to: Address,
        amount: i128,
    ) -> (r: Result<Vec<Event>, Error>) {
        Token::transfer(self, auth, pm, from, to, amount)
    }

    fn fork(&self) -> (t: Self) {
        Token::fork(self)
    }
}

} // verus!
