use vstd::prelude::*;
use crate::address::Address;
use crate::balances::holding;
use crate::balances::lemma_holding_bounded;
use crate::balances::lemma_total_nonnegative;
use crate::balances::lemma_total_set;
use crate::balances::solvent;
use crate::balances::total;
use crate::error::Error;
use crate::table::distinct_ids;
use crate::table::entries_map;
use crate::table::lemma_entries_map_dom;
use crate::table::lemma_entries_map_finite;
use crate::table::Key;
use crate::table::Table;

verus! {

/// The balance sheet of a token and its total supply.
pub struct LedgerModel {
    pub supply: i128,
    pub sheet: Map<Address, i128>,
}

impl LedgerModel {
    /// The ledger of a token of which nothing was minted.
    pub open spec fn empty() -> LedgerModel {
        LedgerModel { supply: 0, sheet: Map::empty() }
    }

    /// No balance is negative, and the balances on the sheet add up to no
    /// more than the supply. (They add up to the supply where the sheet
    /// lists every holder.)
    pub open spec fn well_formed(self) -> bool {
        &&& self.sheet.dom().finite()
        &&& solvent(self.sheet)
        &&& total(self.sheet) <= self.supply
    }

    /// What `account` holds.
    pub open spec fn balance(self, account: Address) -> i128 {
        holding(self.sheet, account)
    }

    /// The ledger after `amount` new units went to `to`.
    pub open spec fn minted(self, to: Address, amount: i128) -> Result<LedgerModel, Error> {
        if self.supply + amount > i128::MAX {
            Err(Error::Overflow)
        } else {
            Ok(
                LedgerModel {
                    supply: (self.supply + amount) as i128,
                    sheet: self.sheet.insert(to, (self.balance(to) + amount) as i128),
                },
            )
        }
    }

    /// The ledger after `amount` units of `from` were destroyed.
    pub open spec fn burned(self, from: Address, amount: i128) -> Result<LedgerModel, Error> {
        if self.balance(from) < amount {
            Err(Error::InsufficientBalance)
        } else {
            Ok(
                LedgerModel {
                    supply: (self.supply - amount) as i128,
                    sheet: self.sheet.insert(from, (self.balance(from) - amount) as i128),
                },
            )
        }
    }

    /// The ledger after `amount` units went from `from` to `to`.
    pub open spec fn moved(self, from: Address, to: Address, amount: i128) -> Result<
        LedgerModel,
        Error,
    > {
        if self.balance(from) < amount {
            Err(Error::InsufficientBalance)
        } else {
            let taken = self.sheet.insert(from, (self.balance(from) - amount) as i128);
            Ok(
                LedgerModel {
                    supply: self.supply,
                    sheet: taken.insert(to, (holding(taken, to) + amount) as i128),
                },
            )
        }
    }

    /// Minting a positive amount raises the supply and the receiver's
    /// balance by that amount, leaves every other balance alone and keeps
    /// the ledger well formed.
    pub proof fn lemma_minted(self, to: Address, amount: i128)
        requires
            self.well_formed(),
            amount > 0,
        ensures
            self.minted(to, amount) matches Ok(next) ==> {
                &&& next.well_formed()
                &&& next.supply == self.supply + amount
                &&& next.supply - total(next.sheet) == self.supply - total(self.sheet)
                &&& next.balance(to) == self.balance(to) + amount
                &&& forall|a: Address| a != to ==> next.balance(a) == self.balance(a)
            },
    {
        lemma_holding_bounded(self.sheet, to);
        lemma_total_set(self.sheet, to, (self.balance(to) + amount) as i128);
    }

    /// Burning a positive amount lowers the supply and the holder's balance
    /// by that amount, leaves every other balance alone and keeps the ledger
    /// well formed.
    pub proof fn lemma_burned(self, from: Address, amount: i128)
        requires
            self.well_formed(),
            amount > 0,
        ensures
            self.burned(from, amount) matches Ok(next) ==> {
                &&& next.well_formed()
                &&& next.supply == self.supply - amount
                &&& next.supply - total(next.sheet) == self.supply - total(self.sheet)
                &&& next.balance(from) == self.balance(from) - amount
                &&& forall|a: Address| a != from ==> next.balance(a) == self.balance(a)
            },
    {
        lemma_holding_bounded(self.sheet, from);
        lemma_total_set(self.sheet, from, (self.balance(from) - amount) as i128);
    }

    /// A transfer of a positive amount keeps the supply, moves the amount
    /// between the two balances, leaves every other balance alone and keeps
    /// the ledger well formed.
    pub proof fn lemma_moved(self, from: Address, to: Address, amount: i128)
        requires
            self.well_formed(),
            amount > 0,
        ensures
            self.moved(from, to, amount) matches Ok(next) ==> {
                &&& next.well_formed()
                &&& next.supply == self.supply
                &&& total(next.sheet) == total(self.sheet)
                &&& from != to ==> next.balance(from) == self.balance(from) - amount
                    && next.balance(to) == self.balance(to) + amount
                &&& from == to ==> next.balance(from) == self.balance(from)
                &&& forall|a: Address| a != from && a != to ==> next.balance(a) == self.balance(a)
            },
    {
        if self.balance(from) >= amount {
            lemma_holding_bounded(self.sheet, from);
            let taken = self.sheet.insert(from, (self.balance(from) - amount) as i128);
            lemma_total_set(self.sheet, from, (self.balance(from) - amount) as i128);
            assert(solvent(taken));
            lemma_holding_bounded(taken, to);
            lemma_total_set(taken, to, (holding(taken, to) + amount) as i128);
        }
    }
}

/// Whether a supply and a list of holdings make up a ledger: no account is
/// listed twice, no holding is negative, and the holdings add up to no more
/// than the supply.
pub open spec fn consistent(supply: i128, holdings: Seq<(Address, i128)>) -> bool {
    &&& distinct_ids(holdings)
    &&& forall|i: int| 0 <= i < holdings.len() ==> (#[trigger] holdings[i]).1 >= 0
    &&& total(entries_map(holdings)) <= supply
}

/// In a list without repeated accounts, each holding adds to the total of
/// those before it.
pub proof fn lemma_total_of_next(holdings: Seq<(Address, i128)>, i: int)
    requires
        distinct_ids(holdings),
        0 <= i < holdings.len(),
    ensures
        !entries_map(holdings.take(i)).dom().contains(holdings[i].0),
        entries_map(holdings.take(i + 1)) == entries_map(holdings.take(i)).insert(
            holdings[i].0,
            holdings[i].1,
        ),
        total(entries_map(holdings.take(i + 1))) == total(entries_map(holdings.take(i)))
            + holdings[i].1,
{
    let before = holdings.take(i);
    let after = holdings.take(i + 1);
    assert(after.drop_last() =~= before);
    assert(after.last() == holdings[i]);
    lemma_entries_map_dom(before, holdings[i].0);
    if entries_map(before).dom().contains(holdings[i].0) {
        let j = choose|j: int| 0 <= j < before.len() && #[trigger] before[j].0.id() == holdings[i].0;
        assert(holdings[j].0.id() == holdings[i].0.id());
    }
    lemma_entries_map_finite(before);
    lemma_total_set(entries_map(before), holdings[i].0, holdings[i].1);
}

/// Where no holding is negative, the total of a part of the list is at most
/// the total of the whole.
pub proof fn lemma_total_of_prefix(holdings: Seq<(Address, i128)>, i: int)
    requires
        distinct_ids(holdings),
        forall|j: int| 0 <= j < holdings.len() ==> (#[trigger] holdings[j]).1 >= 0,
        0 <= i <= holdings.len(),
    ensures
        total(entries_map(holdings.take(i))) <= total(entries_map(holdings)),
    decreases holdings.len() - i,
{
    if i < holdings.len() {
        lemma_total_of_next(holdings, i);
        lemma_total_of_prefix(holdings, i + 1);
        assert(holdings[i].1 >= 0);
    } else {
        assert(holdings.take(i) =~= holdings);
    }
}

/// Balances and total supply of a token.
pub struct Ledger {
    supply: i128,
    sheet: Table<Address, i128>,
}

impl View for Ledger {
    type V = LedgerModel;

    closed spec fn view(&self) -> LedgerModel {
        LedgerModel { supply: self.supply, sheet: self.sheet@ }
    }
}

impl Ledger {
    /// The representation invariant; it implies that the model is well
    /// formed.
    pub closed spec fn wf(&self) -> bool {
        self.sheet.wf() && self@.well_formed()
    }

    /// A ledger that meets its representation invariant has a well-formed
    /// model.
    pub proof fn lemma_wf(&self)
        requires
            self.wf(),
        ensures
            self@.well_formed(),
    {
    }

    pub fn new() -> (l: Ledger)
        ensures
            l.wf(),
            l@ == LedgerModel::empty(),
    {
        Ledger { supply: 0, sheet: Table::new() }
    }

    pub fn total_supply(&self) -> (s: i128)
        ensures
            s == self@.supply,
    {
        self.supply
    }

    pub fn balance(&self, account: &Address) -> (b: i128)
        requires
            self.wf(),
        ensures
            b == self@.balance(*account),
    {
        match self.sheet.get(account) {
            Some(b) => b,
            None => 0,
        }
    }

    /// Creates `amount` new units for `to`.
    pub fn mint(&mut self, to: Address, amount: i128) -> (r: Result<(), Error>)
        requires
            old(self).wf(),
            amount > 0,
        ensures
            final(self).wf(),
            match old(self)@.minted(to, amount) {
                Ok(next) => r == Ok::<(), Error>(()) && final(self)@ == next,
                Err(e) => r == Err::<(), Error>(e) && final(self)@ == old(self)@,
            },
    {
        proof {
            self@.lemma_minted(to, amount);
            lemma_holding_bounded(self.sheet@, to);
        }
        if amount > i128::MAX - self.supply {
            return Err(Error::Overflow);
        }
        let balance = self.balance(&to);
        self.sheet.insert(to, balance + amount);
        self.supply = self.supply + amount;
        Ok(())
    }

    /// Destroys `amount` units of `from`.
    pub fn burn(&mut self, from: Address, amount: i128) -> (r: Result<(), Error>)
        requires
            old(self).wf(),
            amount > 0,
        ensures
            final(self).wf(),
            match old(self)@.burned(from, amount) {
                Ok(next) => r == Ok::<(), Error>(()) && final(self)@ == next,
                Err(e) => r == Err::<(), Error>(e) && final(self)@ == old(self)@,
            },
    {
        proof {
            self@.lemma_burned(from, amount);
            lemma_holding_bounded(self.sheet@, from);
        }
        let balance = self.balance(&from);
        if balance < amount {
            return Err(Error::InsufficientBalance);
        }
        self.sheet.insert(from, balance - amount);
        self.supply = self.supply - amount;
        Ok(())
    }

    /// Moves `amount` units from `from` to `to`.
    pub fn transfer(&mut self, from: Address, to: Address, amount: i128) -> (r: Result<(), Error>)
        requires
            old(self).wf(),
            amount > 0,
        ensures
            final(self).wf(),
            match old(self)@.moved(from, to, amount) {
                Ok(next) => r == Ok::<(), Error>(()) && final(self)@ == next,
                Err(e) => r == Err::<(), Error>(e) && final(self)@ == old(self)@,
            },
    {
        proof {
            self@.lemma_moved(from, to, amount);
            lemma_holding_bounded(self.sheet@, from);
        }
        let balance = self.balance(&from);
        if balance < amount {
            return Err(Error::InsufficientBalance);
        }
        self.sheet.insert(from, balance - amount);
        proof {
            lemma_total_set(old(self).sheet@, from, (balance - amount) as i128);
            self.sheet.lemma_finite();
            assert(solvent(self.sheet@));
            lemma_holding_bounded(self.sheet@, to);
        }
        let held = match self.sheet.get(&to) {
            Some(b) => b,
            None => 0,
        };
        self.sheet.insert(to, held + amount);
        Ok(())
    }

    /// An independent ledger with the same balances and supply.
    pub fn fork(&self) -> (l: Ledger)
        requires
            self.wf(),
        ensures
            l.wf(),
            l@ == self@,
    {
        Ledger { supply: self.supply, sheet: self.sheet.fork() }
    }
    /// The ledger with the given supply and holdings, if they are
    /// consistent.
    pub fn restore(supply: i128, holdings: &Vec<(Address, i128)>) -> (r: Option<Ledger>)
        ensures
            match r {
                Some(l) => consistent(supply, holdings@) && l.wf() && l@ == (LedgerModel {
                    supply,
                    sheet: entries_map(holdings@),
                }),
                None => !consistent(supply, holdings@),
            },
    {
        if supply < 0 {
            proof {
                if consistent(supply, holdings@) {
                    lemma_entries_map_finite(holdings@);
                    assert(solvent(entries_map(holdings@))) by {
                        assert forall|a: Address|
                            entries_map(holdings@).dom().contains(a) implies #[trigger] entries_map(
                            holdings@,
                        )[a] >= 0 by {
                            lemma_entries_map_dom(holdings@, a);
                            let j = choose|j: int|
                                0 <= j < holdings@.len() && #[trigger] holdings@[j].0.id() == a;
                            crate::table::lemma_entries_map_value(holdings@, j);
                        }
                    }
                    lemma_total_nonnegative(entries_map(holdings@));
                }
            }
            return None;
        }
        let mut sheet: Table<Address, i128> = Table::new();
        let mut sum: i128 = 0;
        let mut i: usize = 0;
        assert(holdings@.take(0) =~= Seq::<(Address, i128)>::empty());
        assert(sheet@.dom().is_empty());
        while i < holdings.len()
            invariant
                i <= holdings@.len(),
                sheet.wf(),
                sheet@ == entries_map(holdings@.take(i as int)),
                distinct_ids(holdings@.take(i as int)),
                forall|j: int| 0 <= j < i ==> (#[trigger] holdings@[j]).1 >= 0,
                sheet@.dom().finite(),
                solvent(sheet@),
                sum == total(sheet@),
                0 <= sum <= supply,
            decreases holdings@.len() - i,
        {
            let account = holdings[i].0;
            let amount = holdings[i].1;
            let ghost before = holdings@.take(i as int);
            let ghost after = holdings@.take(i + 1);
            if amount < 0 {
                return None;
            }
            if sheet.contains(&account) {
                proof {
                    lemma_entries_map_dom(before, account);
                    let j = choose|j: int|
                        0 <= j < before.len() && #[trigger] before[j].0.id() == account;
                    assert(holdings@[j].0.id() == holdings@[i as int].0.id());
                }
                return None;
            }
            proof {
                assert(after.drop_last() =~= before);
                assert(after.last() == holdings@[i as int]);
                sheet.lemma_finite();
                lemma_total_set(sheet@, account, amount);
                assert forall|x: int, y: int|
                    0 <= x < after.len() && 0 <= y < after.len() && x != y implies after[x].0.id()
                    != after[y].0.id() by {
                    lemma_entries_map_dom(before, account);
                    if x < i && y < i {
                        assert(before[x].0.id() != before[y].0.id());
                    } else if x < i {
                        assert(before[x].0.id() == after[x].0.id());
                    } else {
                        assert(before[y].0.id() == after[y].0.id());
                    }
                }
            }
            if amount > supply - sum {
                proof {
                    if consistent(supply, holdings@) {
                        lemma_total_of_prefix(holdings@, i + 1);
                    }
                }
                return None;
            }
            sheet.insert(account, amount);
            sum = sum + amount;
            i += 1;
        }
        assert(holdings@.take(i as int) =~= holdings@);
        assert(holdings@.len() == i);
        Some(Ledger { supply, sheet })
    }

    /// The holdings of the ledger as a list in which no account occurs
    /// twice.
    pub fn holdings(&self) -> (list: Vec<(Address, i128)>)
        requires
            self.wf(),
        ensures
            distinct_ids(list@),
            entries_map(list@) == self@.sheet,
    {
        self.sheet.to_entries()
    }
}

} // verus!
