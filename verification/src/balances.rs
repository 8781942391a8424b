use vstd::prelude::*;
use crate::address::Address;

verus! {

/// The sum of all balances of a finite balance sheet.
pub open spec fn total(sheet: Map<Address, i128>) -> int
    decreases sheet.dom().len(),
    when sheet.dom().finite()
{
    if sheet.dom().is_empty() {
        0
    } else {
        let a = sheet.dom().choose();
        sheet[a] + total(sheet.remove(a))
    }
}

/// No account is overdrawn.
pub open spec fn solvent(sheet: Map<Address, i128>) -> bool {
    forall|a: Address| sheet.dom().contains(a) ==> #[trigger] sheet[a] >= 0
}

/// What `account` holds: an account without an entry holds nothing.
pub open spec fn holding(sheet: Map<Address, i128>, account: Address) -> i128 {
    if sheet.dom().contains(account) {
        sheet[account]
    } else {
        0
    }
}

/// The total is the balance of any one account plus the total of the rest.
pub proof fn lemma_total_split(sheet: Map<Address, i128>, account: Address)
    requires
        sheet.dom().finite(),
        sheet.dom().contains(account),
    ensures
        total(sheet) == sheet[account] + total(sheet.remove(account)),
    decreases sheet.dom().len(),
{
    let c = sheet.dom().choose();
    if c != account {
        let rest_c = sheet.remove(c);
        let rest_a = sheet.remove(account);
        lemma_total_split(rest_c, account);
        lemma_total_split(rest_a, c);
        assert(rest_c.remove(account) =~= rest_a.remove(c));
    }
}

/// Setting one balance changes the total by the difference.
pub proof fn lemma_total_set(sheet: Map<Address, i128>, account: Address, value: i128)
    requires
        sheet.dom().finite(),
    ensures
        total(sheet.insert(account, value)) == total(sheet) - holding(sheet, account) + value,
{
    let next = sheet.insert(account, value);
    lemma_total_split(next, account);
    assert(next.remove(account) =~= sheet.remove(account));
    if sheet.dom().contains(account) {
        lemma_total_split(sheet, account);
    } else {
        assert(sheet.remove(account) =~= sheet);
    }
}

/// A solvent sheet has a total that is not negative.
pub proof fn lemma_total_nonnegative(sheet: Map<Address, i128>)
    requires
        sheet.dom().finite(),
        solvent(sheet),
    ensures
        total(sheet) >= 0,
    decreases sheet.dom().len(),
{
    if !sheet.dom().is_empty() {
        let c = sheet.dom().choose();
        assert(sheet[c] >= 0);
        lemma_total_nonnegative(sheet.remove(c));
    }
}

/// In a solvent sheet no account holds more than the total.
pub proof fn lemma_holding_bounded(sheet: Map<Address, i128>, account: Address)
    requires
        sheet.dom().finite(),
        solvent(sheet),
    ensures
        0 <= holding(sheet, account) <= total(sheet),
{
    lemma_total_nonnegative(sheet);
    if sheet.dom().contains(account) {
        lemma_total_split(sheet, account);
        lemma_total_nonnegative(sheet.remove(account));
        assert(sheet[account] >= 0);
    }
}

} // verus!
